//! Laws on the reading and writing of texts.
use vstd::prelude::*;
use vstd::utf8::*;

use crate::clock::reading_of;
use crate::text::{
    byte_len, decimal, digits_value, is_blank_text, is_white_space, kept, listed, pieces, trimmed,
    unsigned_value, without_trailing,
};

verus! {

/// A text is blank if and only if each of its characters is a white space; the
/// text that holds none is.
pub proof fn blank_is_all_white(s: Seq<char>, c: char)
    ensures
        is_blank_text(Seq::empty()),
        is_blank_text(s.push(c)) <==> is_blank_text(s) && is_white_space(c),
{
    assert forall|i: int| is_blank_text(s.push(c)) && 0 <= i < s.len() implies is_white_space(
        #[trigger] s[i],
    ) by {
        assert(s.push(c)[i] == s[i]);
    }
    assert(s.push(c)[s.len() as int] == c);
}

/// Visible characters of ASCII are no white space, and neither is a control
/// character but for tab, line feed, the two feeds beside it and carriage return.
pub proof fn plain_characters_are_not_white(c: char)
    requires
        c as int <= 0x7f,
    ensures
        is_white_space(c) <==> c == ' ' || 9 <= c as int <= 13,
{
}

/// The bytes of a text are those of its encoding.
pub proof fn size_is_that_of_the_encoding(s: Seq<char>)
    ensures
        byte_len(s) == encode_utf8(s).len(),
{
}

// Cutting.

proof fn lemma_without_trailing(s: Seq<char>) -> (k: int)
    ensures
        0 <= k <= s.len(),
        without_trailing(s) == s.take(k),
        forall|i: int| k <= i < s.len() ==> is_white_space(#[trigger] s[i]),
        k > 0 ==> !is_white_space(s[k - 1]),
    decreases s.len(),
{
    if s.len() > 0 && is_white_space(s.last()) {
        let front = s.drop_last();
        let k = lemma_without_trailing(front);
        assert(front.take(k) == s.take(k));
        assert forall|i: int| k <= i < s.len() implies is_white_space(#[trigger] s[i]) by {
            if i < front.len() {
                assert(front[i] == s[i]);
            }
        }
        if k > 0 {
            assert(front[k - 1] == s[k - 1]);
        }
        k
    } else {
        assert(s.take(s.len() as int) == s);
        s.len() as int
    }
}

/// Cutting takes white space, and nothing else, off both ends of a text, and all
/// that stands there: the text is what is cut off at the start, what is left, and
/// what is cut off at the end.
pub proof fn cutting_takes_white_space_off(s: Seq<char>) -> (r: (int, int))
    ensures
        0 <= r.0 <= r.1 <= s.len(),
        trimmed(s) == s.subrange(r.0, r.1),
        forall|i: int| 0 <= i < r.0 || r.1 <= i < s.len() ==> is_white_space(#[trigger] s[i]),
        r.0 < r.1 ==> !is_white_space(s[r.0]) && !is_white_space(s[r.1 - 1]),
    decreases s.len(),
{
    if s.len() > 0 && is_white_space(s[0]) {
        let rest = s.skip(1);
        let (a, b) = cutting_takes_white_space_off(rest);
        assert(rest.subrange(a, b) == s.subrange(a + 1, b + 1));
        assert forall|i: int|
            0 <= i < a + 1 || b + 1 <= i < s.len() implies is_white_space(#[trigger] s[i]) by {
            if i > 0 {
                assert(rest[i - 1] == s[i]);
            }
        }
        if a < b {
            assert(rest[a] == s[a + 1]);
            assert(rest[b - 1] == s[b]);
        }
        (a + 1, b + 1)
    } else {
        let k = lemma_without_trailing(s);
        assert(s.take(k) == s.subrange(0, k));
        (0, k)
    }
}

// Lists.

proof fn lemma_kept_push(parts: Seq<Seq<char>>, p: Seq<char>)
    ensures
        kept(parts.push(p)) == (if trimmed(p).len() > 0 {
            kept(parts).push(trimmed(p))
        } else {
            kept(parts)
        }),
        kept(Seq::empty()) == Seq::<Seq<char>>::empty(),
{
    reveal(Seq::filter);
    let all = parts.push(p).map_values(|p: Seq<char>| trimmed(p));
    assert(all.drop_last() == parts.map_values(|p: Seq<char>| trimmed(p)));
    let none = Seq::<Seq<char>>::empty().map_values(|p: Seq<char>| trimmed(p));
    assert(none.len() == 0);
}

proof fn lemma_kept_add(a: Seq<Seq<char>>, b: Seq<Seq<char>>)
    ensures
        kept(a + b) == kept(a) + kept(b),
    decreases b.len(),
{
    if b.len() == 0 {
        lemma_kept_push(b, Seq::empty());
        assert(b == Seq::<Seq<char>>::empty());
        assert(a + b == a);
        assert(kept(a) + kept(b) == kept(a));
    } else {
        let front = b.drop_last();
        lemma_kept_add(a, front);
        lemma_kept_push(a + front, b.last());
        lemma_kept_push(front, b.last());
        assert((a + front).push(b.last()) == a + b);
        assert(front.push(b.last()) == b);
        assert(kept(a) + kept(b) == (if trimmed(b.last()).len() > 0 {
            (kept(a) + kept(front)).push(trimmed(b.last()))
        } else {
            kept(a) + kept(front)
        }));
    }
}

proof fn lemma_pieces(s: Seq<char>, separator: char)
    ensures
        pieces(s, separator).len() > 0,
    decreases s.len(),
{
    if s.len() > 0 {
        lemma_pieces(s.drop_last(), separator);
    }
}

proof fn lemma_pieces_add(a: Seq<char>, b: Seq<char>, separator: char)
    ensures
        pieces(a.push(separator) + b, separator) == pieces(a, separator) + pieces(b, separator),
    decreases b.len(),
{
    let all = a.push(separator) + b;
    if b.len() == 0 {
        assert(all == a.push(separator));
        assert(all.drop_last() == a);
        assert(pieces(b, separator) == seq![Seq::<char>::empty()]);
    } else {
        let front = b.drop_last();
        lemma_pieces_add(a, front, separator);
        lemma_pieces(front, separator);
        assert(all.drop_last() == a.push(separator) + front);
        assert(all.last() == b.last());
        let x = pieces(a, separator);
        let y = pieces(front, separator);
        assert((x + y).last() == y.last());
        assert((x + y).drop_last() == x + y.drop_last());
    }
}

proof fn lemma_one_piece(s: Seq<char>, separator: char)
    requires
        !s.contains(separator),
    ensures
        pieces(s, separator) == seq![s],
    decreases s.len(),
{
    if s.len() > 0 {
        let front = s.drop_last();
        assert forall|c: char| front.contains(c) implies s.contains(c) by {
            let i = choose|i: int| 0 <= i < front.len() && front[i] == c;
            assert(s[i] == c);
        }
        assert(s.contains(s[s.len() - 1]));
        lemma_one_piece(front, separator);
        assert(front.push(s.last()) == s);
        assert(seq![front].drop_last().push(s) == seq![s]);
    } else {
        assert(s == Seq::<char>::empty());
    }
}

/// A list that is written as two lists with a separator between them holds what
/// the first holds, then what the second holds. A list without a separator holds
/// its text, cut at both ends, unless nothing is then left.
pub proof fn lists_are_read_piece_by_piece(a: Seq<char>, b: Seq<char>, separator: char)
    ensures
        listed(a.push(separator) + b, separator) == listed(a, separator) + listed(b, separator),
        !a.contains(separator) ==> listed(a, separator) == (if trimmed(a).len() > 0 {
            seq![trimmed(a)]
        } else {
            Seq::<Seq<char>>::empty()
        }),
{
    lemma_pieces_add(a, b, separator);
    lemma_kept_add(pieces(a, separator), pieces(b, separator));
    if !a.contains(separator) {
        lemma_one_piece(a, separator);
        lemma_kept_push(Seq::empty(), a);
        assert(Seq::<Seq<char>>::empty().push(a) == seq![a]);
        assert(Seq::<Seq<char>>::empty().push(trimmed(a)) == seq![trimmed(a)]);
    }
}

// Numbers.

/// Whether a text is one or more decimal digits.
pub open spec fn is_number(s: Seq<char>) -> bool {
    s.len() > 0 && forall|i: int| 0 <= i < s.len() ==> 48 <= (#[trigger] s[i]) as int <= 57
}

/// A text writes a number if and only if it is decimal digits, or a plus sign and
/// decimal digits; the sign and leading zeros make no difference, and a further
/// digit is worth one and makes the rest worth ten times as much.
pub proof fn numbers_are_read_in_decimal(s: Seq<char>, c: char)
    ensures
        unsigned_value(s) is Some <==> is_number(s) || (s.len() > 0 && s[0] == '+' && is_number(
            s.skip(1),
        )),
        is_number(s) ==> unsigned_value(seq!['+'] + s) == unsigned_value(s),
        is_number(s) && 48 <= c as int <= 57 ==> unsigned_value(s.push(c)) == Some(
            (10 * unsigned_value(s)->0 + (c as int - 48)) as nat,
        ),
        48 <= c as int <= 57 ==> unsigned_value(seq![c]) == Some((c as int - 48) as nat),
        is_number(s) ==> unsigned_value(seq!['0'] + s) == unsigned_value(s),
{
    assert((seq!['+'] + s).skip(1) == s);
    if is_number(s) {
        assert(s[0] != '+');
        if 48 <= c as int <= 57 {
            assert(s.push(c).drop_last() == s);
            assert(s.push(c)[0] == s[0]);
            assert forall|i: int| 0 <= i < s.push(c).len() implies 48 <= (
            #[trigger] s.push(c)[i]) as int <= 57 by {
                if i < s.len() {
                    assert(s.push(c)[i] == s[i]);
                }
            }
        }
        lemma_leading_zero(s);
        let z = seq!['0'] + s;
        assert forall|i: int| 0 <= i < z.len() implies 48 <= (#[trigger] z[i]) as int <= 57 by {
            if i > 0 {
                assert(z[i] == s[i - 1]);
            }
        }
        assert(z[0] == '0');
    }
    let one = seq![c];
    assert(one.drop_last() == Seq::<char>::empty());
    assert(one.last() == c);
    reveal_with_fuel(digits_value, 2);
}

proof fn lemma_leading_zero(s: Seq<char>)
    ensures
        digits_value(seq!['0'] + s) == digits_value(s),
    decreases s.len(),
{
    let z = seq!['0'] + s;
    if s.len() > 0 {
        lemma_leading_zero(s.drop_last());
        assert(z.drop_last() == seq!['0'] + s.drop_last());
        assert(z.last() == s.last());
    } else {
        assert(z == seq!['0']);
        assert(z.drop_last() == Seq::<char>::empty());
        reveal_with_fuel(digits_value, 2);
    }
}

/// A number is written in decimal digits, without leading zeros, and reads back.
pub proof fn numbers_read_back(n: nat)
    ensures
        is_number(decimal(n)),
        decimal(n).len() > 1 ==> decimal(n)[0] != '0',
        unsigned_value(decimal(n)) == Some(n),
    decreases n,
{
    let s = decimal(n);
    if n < 10 {
        numbers_are_read_in_decimal(s, s[0]);
        assert(seq![s[0]] == s);
    } else {
        let front = decimal(n / 10);
        numbers_read_back(n / 10);
        assert(s == front.push(s.last()));
        numbers_are_read_in_decimal(front, s.last());
        if front.len() == 1 {
            assert(n / 10 < 10) by {
                if n / 10 >= 10 {
                    numbers_read_back(n / 100);
                    assert(n / 10 / 10 == n / 100);
                    assert(front.len() > 1);
                }
            }
            assert(front == seq![front[0]]);
        }
        assert(s[0] == front[0]);
    }
}

// The clock.

/// A clock reads one nanosecond more for each that passes, up to its largest
/// reading, and starts at a day.
pub proof fn clock_counts_what_passes(a: u128, b: u128)
    ensures
        reading_of(0) == 86_400_000_000_000,
        reading_of(b) < u64::MAX ==> reading_of(b) - reading_of(0) == b,
        a <= b ==> reading_of(a) <= reading_of(b),
{
}

} // verus!
