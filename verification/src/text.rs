//! Texts: decimal numbers, white space, and lists with separators.
use vstd::prelude::*;
use vstd::utf8::*;

verus! {

/// `String::push`: the character comes last.
pub assume_specification[ String::push ](s: &mut String, c: char)
    ensures
        final(s)@ == old(s)@.push(c),
;

/// `==` on string slices: whether they hold the same characters.
pub assume_specification[ <str as PartialEq>::eq ](a: &str, b: &str) -> (r: bool)
    ensures
        r == (a@ == b@),
;

/// The characters with the Unicode property `White_Space`.
pub open spec fn is_white_space(c: char) -> bool {
    let n = c as int;
    ||| 0x9 <= n <= 0xd
    ||| n == 0x20
    ||| n == 0x85
    ||| n == 0xa0
    ||| n == 0x1680
    ||| 0x2000 <= n <= 0x200a
    ||| n == 0x2028
    ||| n == 0x2029
    ||| n == 0x202f
    ||| n == 0x205f
    ||| n == 0x3000
}

/// `char::is_whitespace`: whether the character has the property `White_Space`.
pub assume_specification[ char::is_whitespace ](c: char) -> (r: bool)
    ensures
        r == is_white_space(c),
;

/// The number of bytes of a text in UTF-8.
pub open spec fn byte_len(s: Seq<char>) -> nat {
    encode_utf8(s).len()
}

/// Counts the bytes of a text.
pub fn byte_count(s: &str) -> (n: usize)
    ensures
        n == byte_len(s@),
{
    s.as_bytes().len()
}

/// The characters of a text, one by one.
pub fn characters(s: &str) -> (v: Vec<char>)
    ensures
        v@ == s@,
{
    let mut v: Vec<char> = Vec::new();
    for c in it: s.chars()
        invariant
            it.seq() == s@,
            v@ == s@.take(it.index()),
    {
        v.push(c);
        assert(s@.take(it.index() + 1) == s@.take(it.index()).push(c));
    }
    assert(s@.take(s@.len() as int) == s@);
    v
}

/// The text made of the characters from `from` up to `to`.
pub fn text_between(v: &Vec<char>, from: usize, to: usize) -> (s: String)
    requires
        from <= to <= v@.len(),
    ensures
        s@ == v@.subrange(from as int, to as int),
{
    let mut s = String::new();
    let mut i: usize = from;
    while i < to
        invariant
            from <= i <= to <= v@.len(),
            s@ == v@.subrange(from as int, i as int),
        decreases to - i,
    {
        s.push(v[i]);
        i += 1;
        assert(v@.subrange(from as int, i as int) == v@.subrange(from as int, i - 1).push(
            v@[i - 1],
        ));
    }
    s
}

/// Whether a text holds nothing but white space.
pub open spec fn is_blank_text(s: Seq<char>) -> bool {
    forall|i: int| 0 <= i < s.len() ==> is_white_space(s[i])
}

/// Tells whether a text holds nothing but white space.
pub fn is_blank(s: &str) -> (r: bool)
    ensures
        r == is_blank_text(s@),
{
    let v = characters(s);
    let mut i: usize = 0;
    while i < v.len()
        invariant
            i <= v@.len(),
            v@ == s@,
            forall|j: int| 0 <= j < i ==> is_white_space(s@[j]),
        decreases v@.len() - i,
    {
        let c = v[i];
        if !c.is_whitespace() {
            return false;
        }
        i += 1;
    }
    true
}

/// A text without the white space that it ends with.
pub open spec fn without_trailing(s: Seq<char>) -> Seq<char>
    decreases s.len(),
{
    if s.len() > 0 && is_white_space(s.last()) {
        without_trailing(s.drop_last())
    } else {
        s
    }
}

/// A text without the white space that it starts and ends with.
pub open spec fn trimmed(s: Seq<char>) -> Seq<char>
    decreases s.len(),
{
    if s.len() > 0 && is_white_space(s[0]) {
        trimmed(s.skip(1))
    } else {
        without_trailing(s)
    }
}

/// Cuts the white space off both ends of a piece of a text.
fn trim(v: &Vec<char>, from: usize, to: usize) -> (s: String)
    requires
        from <= to <= v@.len(),
    ensures
        s@ == trimmed(v@.subrange(from as int, to as int)),
{
    let mut a: usize = from;
    while a < to && v[a].is_whitespace()
        invariant
            from <= a <= to <= v@.len(),
            trimmed(v@.subrange(from as int, to as int)) == trimmed(
                v@.subrange(a as int, to as int),
            ),
        ensures
            from <= a <= to,
            trimmed(v@.subrange(from as int, to as int)) == without_trailing(
                v@.subrange(a as int, to as int),
            ),
        decreases to - a,
    {
        assert(v@.subrange(a as int, to as int).skip(1) == v@.subrange(a + 1, to as int));
        a += 1;
    }
    let mut b: usize = to;
    while a < b && v[b - 1].is_whitespace()
        invariant
            a <= b <= to <= v@.len(),
            trimmed(v@.subrange(from as int, to as int)) == without_trailing(
                v@.subrange(a as int, b as int),
            ),
        ensures
            a <= b <= to,
            trimmed(v@.subrange(from as int, to as int)) == v@.subrange(a as int, b as int),
        decreases b - a,
    {
        assert(v@.subrange(a as int, b as int).drop_last() == v@.subrange(a as int, b - 1));
        b -= 1;
    }
    text_between(v, a, b)
}

/// The pieces of a text between separators; there is one more than separators.
pub open spec fn pieces(s: Seq<char>, separator: char) -> Seq<Seq<char>>
    decreases s.len(),
{
    if s.len() == 0 {
        seq![Seq::empty()]
    } else {
        let before = pieces(s.drop_last(), separator);
        if s.last() == separator {
            before.push(Seq::empty())
        } else {
            before.drop_last().push(before.last().push(s.last()))
        }
    }
}

/// The pieces of a list that is written with separators, each without the white
/// space around it, those that are empty left out.
pub open spec fn listed(s: Seq<char>, separator: char) -> Seq<Seq<char>> {
    kept(pieces(s, separator))
}

/// The pieces that are not blank, each without the white space around it.
pub open spec fn kept(parts: Seq<Seq<char>>) -> Seq<Seq<char>> {
    parts.map_values(|p: Seq<char>| trimmed(p)).filter(|p: Seq<char>| p.len() > 0)
}

proof fn lemma_kept_push(parts: Seq<Seq<char>>, p: Seq<char>)
    ensures
        kept(parts.push(p)) == (if trimmed(p).len() > 0 {
            kept(parts).push(trimmed(p))
        } else {
            kept(parts)
        }),
{
    reveal(Seq::filter);
    let all = parts.push(p).map_values(|p: Seq<char>| trimmed(p));
    assert(all.drop_last() == parts.map_values(|p: Seq<char>| trimmed(p)));
}

/// The texts that strings hold.
pub open spec fn texts(v: Seq<String>) -> Seq<Seq<char>> {
    v.map_values(|s: String| s@)
}

/// Reads a list that is written with separators: each piece without the white
/// space around it, those that are empty left out.
pub fn read_list(s: &str, separator: char) -> (r: Vec<String>)
    ensures
        texts(r@) == listed(s@, separator),
{
    let v = characters(s);
    let mut out: Vec<String> = Vec::new();
    let mut from: usize = 0;
    let mut i: usize = 0;
    proof {
        reveal(Seq::filter);
        assert(pieces(s@.take(0), separator).drop_last() == Seq::<Seq<char>>::empty());
        assert(texts(out@) == kept(pieces(s@.take(0), separator).drop_last()));
        assert(v@.subrange(0, 0) == Seq::<char>::empty());
    }
    while i < v.len()
        invariant
            from <= i <= v@.len(),
            v@ == s@,
            pieces(s@.take(i as int), separator).len() > 0,
            texts(out@) == kept(pieces(s@.take(i as int), separator).drop_last()),
            pieces(s@.take(i as int), separator).last() == v@.subrange(from as int, i as int),
        decreases v@.len() - i,
    {
        let c = v[i];
        let ghost before = pieces(s@.take(i as int), separator);
        let ghost now = pieces(s@.take(i + 1), separator);
        assert(s@.take(i + 1).drop_last() == s@.take(i as int));
        if c == separator {
            let piece = trim(&v, from, i);
            proof {
                lemma_kept_push(before.drop_last(), before.last());
                assert(before.drop_last().push(before.last()) == before);
                assert(now.drop_last() == before);
            }
            let ghost was = out@;
            if !piece.as_str().is_empty() {
                out.push(piece);
                assert(texts(out@) == texts(was).push(piece@));
            }
            from = i + 1;
            assert(v@.subrange(from as int, i + 1) == Seq::<char>::empty());
        } else {
            assert(now.drop_last() == before.drop_last());
            assert(v@.subrange(from as int, i + 1) == v@.subrange(from as int, i as int).push(c));
        }
        i += 1;
    }
    let piece = trim(&v, from, i);
    proof {
        let all = pieces(s@, separator);
        assert(s@.take(i as int) == s@);
        lemma_kept_push(all.drop_last(), all.last());
        assert(all.drop_last().push(all.last()) == all);
    }
    let ghost was = out@;
    if !piece.as_str().is_empty() {
        out.push(piece);
        assert(texts(out@) == texts(was).push(piece@));
    }
    out
}

/// The character of a decimal digit.
pub open spec fn digit(d: nat) -> char {
    ('0' as int + d) as char
}

/// A number in decimal.
pub open spec fn decimal(n: nat) -> Seq<char>
    decreases n,
{
    if n < 10 {
        seq![digit(n)]
    } else {
        decimal(n / 10).push(digit(n % 10))
    }
}

/// Writes a number in decimal.
pub fn decimal_text(n: usize) -> (s: String)
    ensures
        s@ == decimal(n as nat),
    decreases n,
{
    let mut s = if n < 10 {
        String::new()
    } else {
        decimal_text(n / 10)
    };
    let d: u8 = '0' as u8 + (n % 10) as u8;
    s.push(d as char);
    s
}

/// Whether a character is a decimal digit.
pub open spec fn is_digit(c: char) -> bool {
    '0' <= c <= '9'
}

/// The number that decimal digits write.
pub open spec fn digits_value(s: Seq<char>) -> nat
    decreases s.len(),
{
    if s.len() == 0 {
        0
    } else {
        digits_value(s.drop_last()) * 10 + (s.last() as int - '0' as int) as nat
    }
}

/// The digits of a number that may start with a plus sign.
pub open spec fn unsigned_digits(s: Seq<char>) -> Seq<char> {
    if s.len() > 0 && s[0] == '+' {
        s.skip(1)
    } else {
        s
    }
}

/// The number that a text writes: one digit or more, which a plus sign may
/// precede.
pub open spec fn unsigned_value(s: Seq<char>) -> Option<nat> {
    let d = unsigned_digits(s);
    if d.len() > 0 && (forall|i: int| 0 <= i < d.len() ==> is_digit(#[trigger] d[i])) {
        Some(digits_value(d))
    } else {
        None
    }
}

/// Reads a number that is at most `max`.
pub fn read_unsigned(s: &str, max: u64) -> (r: Option<u64>)
    ensures
        r == (match unsigned_value(s@) {
            Some(n) => if n <= max {
                Some(n as u64)
            } else {
                None
            },
            None => None,
        }),
{
    let v = characters(s);
    let start: usize = if v.len() > 0 && v[0] == '+' {
        1
    } else {
        0
    };
    let ghost d = unsigned_digits(s@);
    assert(d == v@.skip(start as int));
    if start == v.len() {
        return None;
    }
    let mut value: u64 = 0;
    let mut too_large = false;
    let mut i: usize = start;
    while i < v.len()
        invariant
            start <= i <= v@.len(),
            d == unsigned_digits(s@),
            d == v@.skip(start as int),
            forall|j: int| 0 <= j < i - start ==> is_digit(#[trigger] d[j]),
            too_large ==> digits_value(d.take(i - start)) > max,
            !too_large ==> digits_value(d.take(i - start)) == value && value <= max,
        decreases v@.len() - i,
    {
        let c = v[i];
        assert(d[i - start] == c);
        if !('0' <= c && c <= '9') {
            return None;
        }
        assert(d.take(i - start + 1).drop_last() == d.take(i - start));
        assert(d.take(i - start + 1).last() == c);
        if !too_large {
            let next: u128 = (value as u128) * 10 + ((c as u32) - ('0' as u32)) as u128;
            if next > max as u128 {
                too_large = true;
            } else {
                value = next as u64;
            }
        }
        i += 1;
    }
    assert(d.take(i - start) == d);
    if too_large {
        None
    } else {
        Some(value)
    }
}

} // verus!
