//! Peer ids: random UUIDs, and their texts.
use uuid::Uuid;
use vstd::prelude::*;

verus! {

#[verifier::external_type_specification]
#[verifier::external_body]
pub struct ExUuidError(uuid::Error);

/// The character of a hexadecimal digit, in lower case.
pub open spec fn hex_char(d: nat) -> char {
    if d < 10 {
        ('0' as int + d) as char
    } else {
        ('a' as int + d - 10) as char
    }
}

/// The last `k` hexadecimal digits of a number.
pub open spec fn hex_digits(n: nat, k: nat) -> Seq<char>
    decreases k,
{
    if k == 0 {
        Seq::empty()
    } else {
        hex_digits(n / 16, (k - 1) as nat).push(hex_char(n % 16))
    }
}

/// The text of an id: its 32 hexadecimal digits, in groups of 8, 4, 4, 4 and 12.
pub open spec fn id_text(id: u128) -> Seq<char> {
    let d = hex_digits(id as nat, 32);
    d.subrange(0, 8) + seq!['-'] + d.subrange(8, 12) + seq!['-'] + d.subrange(12, 16) + seq!['-']
        + d.subrange(16, 20) + seq!['-'] + d.subrange(20, 32)
}

/// The value of a hexadecimal digit, in lower or upper case.
pub open spec fn hex_value(c: char) -> Option<nat> {
    if '0' <= c <= '9' {
        Some((c as int - '0' as int) as nat)
    } else if 'a' <= c <= 'f' {
        Some((c as int - 'a' as int + 10) as nat)
    } else if 'A' <= c <= 'F' {
        Some((c as int - 'A' as int + 10) as nat)
    } else {
        None
    }
}

/// The number that hexadecimal digits write.
pub open spec fn hex_number(s: Seq<char>) -> Option<nat>
    decreases s.len(),
{
    if s.len() == 0 {
        Some(0)
    } else {
        match (hex_number(s.drop_last()), hex_value(s.last())) {
            (Some(n), Some(d)) => Some(n * 16 + d),
            _ => None,
        }
    }
}

/// The number that digits write in groups of 8, 4, 4, 4 and 12, with a hyphen
/// between the groups.
pub open spec fn grouped_number(s: Seq<char>) -> Option<nat> {
    if s.len() == 36 && s[8] == '-' && s[13] == '-' && s[18] == '-' && s[23] == '-' {
        hex_number(
            s.subrange(0, 8) + s.subrange(9, 13) + s.subrange(14, 18) + s.subrange(19, 23)
                + s.subrange(24, 36),
        )
    } else {
        None
    }
}

/// A letter A to Z in lower case; any other character as it is.
pub open spec fn lower_case(c: char) -> char {
    if 'A' <= c <= 'Z' {
        (c as int + 32) as char
    } else {
        c
    }
}

/// The id that a text writes: bare digits, digits in groups, or digits in groups
/// within braces or behind `urn:uuid:`.
pub open spec fn id_number(s: Seq<char>) -> Option<nat> {
    if s.len() == 32 {
        hex_number(s)
    } else if s.len() == 36 {
        grouped_number(s)
    } else if s.len() == 38 && s[0] == '{' && s[37] == '}' {
        grouped_number(s.subrange(1, 37))
    } else if s.len() == 45 && s.take(9).map_values(|c: char| lower_case(c)) == "urn:uuid:"@ {
        grouped_number(s.skip(9))
    } else {
        None
    }
}

/// The marks of a random UUID: version 4, and the variant of RFC 4122.
pub open spec fn is_random_id(id: u128) -> bool {
    &&& id / 0x1000_0000_0000_0000_0000 % 16 == 4
    &&& id / 0x4000_0000_0000_0000 % 4 == 2
}

/// `Uuid::new_v4`: an id at random, with the marks of a random UUID.
#[verifier::external_body]
fn new_id() -> (id: u128)
    ensures
        is_random_id(id),
{
    Uuid::new_v4().as_u128()
}

/// Whether `Uuid::new_v4` has given this id.
pub closed spec fn is_drawn_id(id: u128) -> bool {
    call_ensures(new_id, (), id)
}

/// Draws an id at random.
pub fn draw_id() -> (id: u128)
    ensures
        is_random_id(id),
        is_drawn_id(id),
{
    let id = new_id();
    assert(is_drawn_id(id));
    id
}

/// `Uuid::to_string`: the id's digits in groups, in lower case.
#[verifier::external_body]
pub(crate) fn write_id(id: u128) -> (s: String)
    ensures
        s@ == id_text(id),
{
    Uuid::from_u128(id).to_string()
}

/// `Uuid::parse_str`: the id that the text writes, or an error where it writes
/// none.
#[verifier::external_body]
pub(crate) fn read_id(s: &str) -> (r: Result<u128, uuid::Error>)
    ensures
        match r {
            Ok(id) => id_number(s@) == Some(id as nat),
            Err(_) => id_number(s@) is None,
        },
{
    match Uuid::parse_str(s) {
        Ok(id) => Ok(id.as_u128()),
        Err(error) => Err(error),
    }
}

spec fn power16(k: nat) -> nat
    decreases k,
{
    if k == 0 {
        1
    } else {
        16 * power16((k - 1) as nat)
    }
}

proof fn lemma_power16_positive(k: nat)
    ensures
        power16(k) > 0,
    decreases k,
{
    if k > 0 {
        lemma_power16_positive((k - 1) as nat);
    }
}

proof fn lemma_power16_32()
    ensures
        power16(32) == 0x1_0000_0000_0000_0000_0000_0000_0000_0000,
{
    reveal_with_fuel(power16, 33);
}

proof fn lemma_hex_digits(n: nat, k: nat)
    requires
        n < power16(k),
    ensures
        hex_digits(n, k).len() == k,
        hex_number(hex_digits(n, k)) == Some(n),
    decreases k,
{
    if k > 0 {
        lemma_hex_digits(n / 16, (k - 1) as nat);
        let s = hex_digits(n, k);
        assert(s.drop_last() == hex_digits(n / 16, (k - 1) as nat));
        assert(hex_value(hex_char(n % 16)) == Some(n % 16));
    }
}

proof fn lemma_hex_number_bound(s: Seq<char>, k: nat)
    requires
        s.len() <= k,
        hex_number(s) is Some,
    ensures
        hex_number(s)->0 < power16(k),
    decreases k,
{
    if s.len() > 0 {
        lemma_hex_number_bound(s.drop_last(), (k - 1) as nat);
    }
    lemma_power16_positive(k);
}

/// An id that a text writes has 128 bits at most.
pub proof fn id_number_fits(s: Seq<char>)
    ensures
        id_number(s) matches Some(n) ==> n <= u128::MAX,
{
    lemma_power16_32();
    if let Some(n) = id_number(s) {
        let g = if s.len() == 32 {
            s
        } else {
            let t = if s.len() == 36 {
                s
            } else if s.len() == 38 {
                s.subrange(1, 37)
            } else {
                s.skip(9)
            };
            t.subrange(0, 8) + t.subrange(9, 13) + t.subrange(14, 18) + t.subrange(19, 23)
                + t.subrange(24, 36)
        };
        lemma_hex_number_bound(g, 32);
    }
}

/// Reading the text of an id gives the id back.
pub proof fn id_text_reads_back(id: u128)
    ensures
        id_number(id_text(id)) == Some(id as nat),
{
    lemma_power16_32();
    lemma_hex_digits(id as nat, 32);
    let d = hex_digits(id as nat, 32);
    let s = id_text(id);
    assert(s.subrange(0, 8) == d.subrange(0, 8));
    assert(s.subrange(9, 13) == d.subrange(8, 12));
    assert(s.subrange(14, 18) == d.subrange(12, 16));
    assert(s.subrange(19, 23) == d.subrange(16, 20));
    assert(s.subrange(24, 36) == d.subrange(20, 32));
    assert(s.subrange(0, 8) + s.subrange(9, 13) + s.subrange(14, 18) + s.subrange(19, 23)
        + s.subrange(24, 36) == d);
}

} // verus!
