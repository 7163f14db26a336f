//! Identifiers and tokens of sessions, origins, and what logs may show.
use rand::rngs::ThreadRng;
use rand::Rng;
use vstd::prelude::*;
use vstd::string::*;
use vstd::utf8::*;

use crate::text::{byte_count, byte_len, decimal, decimal_text};

verus! {

/// The characters of transfer ids, without those that are easily confused.
pub open spec fn transfer_id_alphabet() -> Seq<char> {
    "ABCDEFGHJKLMNPQRSTUVWXYZ23456789"@
}

/// The characters of session tokens.
pub open spec fn token_alphabet() -> Seq<char> {
    "abcdefghijklmnopqrstuvwxyzABCDEFGHIJKLMNOPQRSTUVWXYZ0123456789"@
}

/// Whether a text has this length and is made of these characters.
pub open spec fn is_code(s: Seq<char>, length: nat, alphabet: Seq<char>) -> bool {
    &&& s.len() == length
    &&& forall|i: int| 0 <= i < s.len() ==> alphabet.contains(#[trigger] s[i])
}

#[verifier::external_type_specification]
#[verifier::external_body]
pub struct ExThreadRng(rand::rngs::ThreadRng);

/// `rand::thread_rng`: the thread's generator.
pub assume_specification[ rand::thread_rng ]() -> ThreadRng
;

/// `Rng::gen_range` on the thread's generator: a number at random below `bound`.
/// An empty range makes it panic, so `bound` is not zero. The generator comes back
/// as the draw has left it.
#[verifier::external_body]
fn random_below(generator: ThreadRng, bound: usize) -> (r: (ThreadRng, usize))
    requires
        bound > 0,
    ensures
        r.1 < bound,
{
    let mut generator = generator;
    let n = generator.gen_range(0..bound);
    (generator, n)
}

/// Whether a generator has given this number below `bound`, and was then left like
/// this.
pub closed spec fn is_draw(before: ThreadRng, bound: usize, after: ThreadRng, n: usize) -> bool {
    call_ensures(random_below, (before, bound), (after, n))
}

/// Whether the thread's generator has given these numbers below `bound` in a row,
/// each drawn from the generator as the draw before has left it.
pub open spec fn is_run(generators: Seq<ThreadRng>, bound: usize, choices: Seq<usize>) -> bool {
    &&& generators.len() == choices.len() + 1
    &&& call_ensures(rand::thread_rng, (), generators[0])
    &&& forall|i: int|
        0 <= i < choices.len() ==> is_draw(
            generators[i],
            bound,
            generators[i + 1],
            #[trigger] choices[i],
        )
}

/// The characters at these places of an alphabet.
pub open spec fn picked(choices: Seq<usize>, alphabet: Seq<char>) -> Seq<char> {
    Seq::new(choices.len(), |i: int| alphabet[choices[i] as int])
}

/// Whether a text has this length and is made of characters of an alphabet, at
/// places that the thread's generator has given in a row.
pub open spec fn is_drawn(s: Seq<char>, length: nat, alphabet: Seq<char>) -> bool {
    exists|generators: Seq<ThreadRng>, choices: Seq<usize>|
        {
            &&& choices.len() == length
            &&& #[trigger] is_run(generators, alphabet.len() as usize, choices)
            &&& s == picked(choices, alphabet)
        }
}

/// Picks the characters at these places of an alphabet.
pub fn code_from(choices: &Vec<usize>, alphabet: &str) -> (s: String)
    requires
        alphabet@.len() <= usize::MAX,
        forall|i: int| 0 <= i < choices@.len() ==> (#[trigger] choices@[i]) < alphabet@.len(),
    ensures
        s@ == picked(choices@, alphabet@),
{
    let mut s = String::new();
    let mut i: usize = 0;
    while i < choices.len()
        invariant
            i <= choices@.len(),
            forall|i: int| 0 <= i < choices@.len() ==> (#[trigger] choices@[i]) < alphabet@.len(),
            s@ == picked(choices@.take(i as int), alphabet@),
        decreases choices@.len() - i,
    {
        s.push(alphabet.get_char(choices[i]));
        i += 1;
        assert(s@ == picked(choices@.take(i as int), alphabet@));
    }
    assert(choices@.take(i as int) == choices@);
    s
}

/// Draws numbers below `bound`, one after the other.
fn draw(count: usize, bound: usize) -> (choices: Vec<usize>)
    requires
        bound > 0,
    ensures
        choices@.len() == count,
        forall|i: int| 0 <= i < count ==> (#[trigger] choices@[i]) < bound,
        exists|generators: Seq<ThreadRng>| #[trigger] is_run(generators, bound, choices@),
{
    let mut choices: Vec<usize> = Vec::new();
    let mut generator = rand::thread_rng();
    let ghost mut generators: Seq<ThreadRng> = seq![generator];
    while choices.len() < count
        invariant
            bound > 0,
            choices@.len() <= count,
            forall|i: int| 0 <= i < choices@.len() ==> (#[trigger] choices@[i]) < bound,
            is_run(generators, bound, choices@),
            generators.last() == generator,
        decreases count - choices@.len(),
    {
        let ghost before = choices@;
        let ghost from = generator;
        let (next, n) = random_below(generator, bound);
        assert(is_draw(from, bound, next, n));
        generator = next;
        choices.push(n);
        proof {
            let was = generators;
            generators = generators.push(generator);
            assert forall|i: int| 0 <= i < choices@.len() implies is_draw(
                generators[i],
                bound,
                generators[i + 1],
                #[trigger] choices@[i],
            ) by {
                if i < before.len() {
                    assert(choices@[i] == before[i]);
                    assert(generators[i] == was[i] && generators[i + 1] == was[i + 1]);
                }
            }
        }
    }
    choices
}

/// Draws a text of this length from these characters.
fn random_code(length: usize, alphabet: &str) -> (s: String)
    requires
        0 < alphabet@.len() <= usize::MAX,
    ensures
        is_code(s@, length as nat, alphabet@),
        is_drawn(s@, length as nat, alphabet@),
{
    let size = alphabet.unicode_len();
    let choices = draw(length, size);
    assert(size == alphabet@.len() as usize);
    let s = code_from(&choices, alphabet);
    proof {
        let generators = choose|generators: Seq<ThreadRng>| #[trigger]
            is_run(generators, size, choices@);
        assert(is_run(generators, alphabet@.len() as usize, choices@));
        assert(s@ == picked(choices@, alphabet@));
    }
    assert forall|i: int| 0 <= i < s@.len() implies alphabet@.contains(#[trigger] s@[i]) by {
        assert(s@[i] == alphabet@[choices@[i] as int]);
    }
    s
}

/// A text that has been drawn is made of the characters that it was drawn from.
pub proof fn drawn_is_code(s: Seq<char>, length: nat, alphabet: Seq<char>)
    requires
        0 < alphabet.len() <= usize::MAX,
        is_drawn(s, length, alphabet),
    ensures
        is_code(s, length, alphabet),
{
    let (generators, choices) = choose|generators: Seq<ThreadRng>, choices: Seq<usize>|
        {
            &&& choices.len() == length
            &&& #[trigger] is_run(generators, alphabet.len() as usize, choices)
            &&& s == picked(choices, alphabet)
        };
    assert forall|i: int| 0 <= i < s.len() implies alphabet.contains(#[trigger] s[i]) by {
        assert(is_draw(
            generators[i],
            alphabet.len() as usize,
            generators[i + 1],
            choices[i],
        ));
        assert(choices[i] < alphabet.len());
    }
}

/// Every text of these characters is picked by some numbers: each character can
/// stand at each place.
pub proof fn every_code_can_be_picked(s: Seq<char>, alphabet: Seq<char>)
    requires
        alphabet.len() <= usize::MAX,
        is_code(s, s.len(), alphabet),
    ensures
        exists|choices: Seq<usize>|
            {
                &&& choices.len() == s.len()
                &&& forall|i: int|
                    0 <= i < choices.len() ==> (#[trigger] choices[i]) < alphabet.len()
                &&& #[trigger] picked(choices, alphabet) == s
            },
{
    let choices = Seq::new(s.len(), |i: int| alphabet.index_of(s[i]) as usize);
    assert forall|i: int| 0 <= i < choices.len() implies (#[trigger] choices[i]) < alphabet.len()
        && alphabet[choices[i] as int] == s[i] by {
        assert(alphabet.contains(s[i]));
    }
    assert(picked(choices, alphabet) == s);
}

/// Draws a readable transfer id of 10 characters.
pub fn generate_transfer_id() -> (s: String)
    ensures
        is_code(s@, 10, transfer_id_alphabet()),
        is_drawn(s@, 10, transfer_id_alphabet()),
{
    proof {
        reveal_strlit("ABCDEFGHJKLMNPQRSTUVWXYZ23456789");
    }
    random_code(10, "ABCDEFGHJKLMNPQRSTUVWXYZ23456789")
}

/// Draws a session token of 32 characters.
pub fn generate_secure_token() -> (s: String)
    ensures
        is_code(s@, 32, token_alphabet()),
        is_drawn(s@, 32, token_alphabet()),
{
    proof {
        reveal_strlit("abcdefghijklmnopqrstuvwxyzABCDEFGHIJKLMNOPQRSTUVWXYZ0123456789");
    }
    random_code(32, "abcdefghijklmnopqrstuvwxyzABCDEFGHIJKLMNOPQRSTUVWXYZ0123456789")
}

/// Whether a list of origins lets an origin in: it names it, or `*`.
pub open spec fn origin_allowed(origin: Seq<char>, allowed: Seq<String>) -> bool {
    exists|i: int|
        0 <= i < allowed.len() && ((#[trigger] allowed[i])@ == "*"@ || allowed[i]@ == origin)
}

/// Tells whether a list of origins lets an origin in.
pub fn is_origin_allowed(origin: &str, allowed_origins: &[String]) -> (r: bool)
    ensures
        r == origin_allowed(origin@, allowed_origins@),
{
    let mut i: usize = 0;
    while i < allowed_origins.len()
        invariant
            i <= allowed_origins@.len(),
            forall|j: int|
                0 <= j < i ==> (#[trigger] allowed_origins@[j])@ != "*"@ && allowed_origins@[j]@
                    != origin@,
        decreases allowed_origins@.len() - i,
    {
        let o = allowed_origins[i].as_str();
        if *o == *"*" || *o == *origin {
            assert(allowed_origins@[i as int]@ == o@);
            return true;
        }
        i += 1;
    }
    false
}

/// A token as logs may show it: the first and the last three bytes of one that
/// is longer than six, nothing of a shorter one.
pub open spec fn redacted_token(token: Seq<char>) -> Seq<char> {
    let bytes = encode_utf8(token);
    if bytes.len() <= 6 {
        "***"@
    } else {
        decode_utf8(bytes.take(3)) + "..."@ + decode_utf8(bytes.skip(bytes.len() - 3))
    }
}

/// Whether the first and the last three bytes of a text are whole characters.
pub open spec fn ends_are_whole(token: Seq<char>) -> bool {
    let bytes = encode_utf8(token);
    bytes.len() > 6 ==> is_char_boundary(bytes, 3) && is_char_boundary(bytes, bytes.len() - 3)
}

/// Returns a token as logs may show it.
pub fn redact_token(token: &str) -> (s: String)
    requires
        ends_are_whole(token@),
    ensures
        s@ == redacted_token(token@),
{
    broadcast use encode_utf8_decode_utf8;

    let n = byte_count(token);
    if n <= 6 {
        "***".to_string()
    } else {
        let first = token.split_at(3).0;
        let last = token.split_at(n - 3).1;
        let mut s = first.to_string();
        s.append("...");
        s.append(last);
        assert(first@ == decode_utf8(first.spec_bytes()));
        assert(last@ == decode_utf8(last.spec_bytes()));
        s
    }
}

/// A session description as logs may show it: its size in bytes.
pub open spec fn redacted_sdp(sdp: Seq<char>) -> Seq<char> {
    "[SDP payload ("@ + decimal(byte_len(sdp)) + " bytes)]"@
}

/// Returns a session description as logs may show it.
pub fn redact_sdp(sdp: &str) -> (s: String)
    ensures
        s@ == redacted_sdp(sdp@),
{
    let mut s = "[SDP payload (".to_string();
    s.append(decimal_text(byte_count(sdp)).as_str());
    s.append(" bytes)]");
    s
}

/// A candidate as logs may show it: its size in bytes.
pub open spec fn redacted_ice(candidate: Seq<char>) -> Seq<char> {
    "[ICE Candidate ("@ + decimal(byte_len(candidate)) + " bytes)]"@
}

/// Returns a candidate as logs may show it.
pub fn redact_ice(candidate: &str) -> (s: String)
    ensures
        s@ == redacted_ice(candidate@),
{
    let mut s = "[ICE Candidate (".to_string();
    s.append(decimal_text(byte_count(candidate)).as_str());
    s.append(" bytes)]");
    s
}

} // verus!
