//! Text handling shared by the parsers: characters of a string, fields
//! between separators, unsigned decimal numbers.

use vstd::prelude::*;

verus! {

/// The views of a sequence of strings.
pub open spec fn views(texts: Seq<String>) -> Seq<Seq<char>> {
    Seq::new(texts.len(), |i: int| texts[i]@)
}

/// The fields of `s` that lie between occurrences of `sep`. There is always
/// at least one field; a separator at either end gives an empty field there.
pub open spec fn fields(s: Seq<char>, sep: char) -> Seq<Seq<char>>
    decreases s.len(),
{
    if s.len() == 0 {
        seq![Seq::<char>::empty()]
    } else {
        let before = fields(s.drop_last(), sep);
        if s.last() == sep {
            before.push(Seq::<char>::empty())
        } else {
            before.drop_last().push(before.last().push(s.last()))
        }
    }
}

/// `c` is one of the ASCII digits `0` to `9`.
pub open spec fn is_digit(c: char) -> bool {
    '0' <= c && c <= '9'
}

/// Every character of `s` is an ASCII digit.
pub open spec fn all_digits(s: Seq<char>) -> bool {
    forall|i: int| 0 <= i < s.len() ==> is_digit(#[trigger] s[i])
}

/// The value of the digit `c`.
pub open spec fn digit_value(c: char) -> nat {
    if is_digit(c) {
        (c as u32 - '0' as u32) as nat
    } else {
        0
    }
}

/// The number that the digits of `s` write in base ten, most significant
/// digit first.
pub open spec fn decimal(s: Seq<char>) -> nat
    decreases s.len(),
{
    if s.len() == 0 {
        0
    } else {
        decimal(s.drop_last()) * 10 + digit_value(s.last())
    }
}

/// What `s` reads as an unsigned decimal no greater than `max`: one or more
/// ASCII digits, nothing else.
pub open spec fn bounded_decimal(s: Seq<char>, max: nat) -> Option<nat> {
    if s.len() > 0 && all_digits(s) && decimal(s) <= max {
        Some(decimal(s))
    } else {
        None
    }
}

/// A number never shrinks when more digits follow it.
pub proof fn lemma_decimal_prefix(s: Seq<char>, k: int)
    requires
        0 <= k <= s.len(),
    ensures
        decimal(s.take(k)) <= decimal(s),
    decreases s.len(),
{
    if k < s.len() {
        lemma_decimal_prefix(s.drop_last(), k);
        assert(s.drop_last().take(k) == s.take(k));
    } else {
        assert(s.take(k) == s);
    }
}

/// The characters of `s`, in order.
pub fn chars_of(s: &str) -> (chars: Vec<char>)
    ensures
        chars@ == s@,
{
    let mut chars: Vec<char> = Vec::new();
    for c in it: s.chars()
        invariant
            chars@ == it.seq().take(it.index() as int),
            it.seq() == s@,
    {
        chars.push(c);
    }
    chars
}

/// Whether two strings hold the same characters.
pub fn same_text(a: &str, b: &str) -> (same: bool)
    ensures
        same == (a@ == b@),
{
    let left: String = a.to_owned();
    let right: String = b.to_owned();
    left == right
}

/// Cuts `s` at every `sep`.
pub fn split(s: &str, sep: char) -> (parts: Vec<String>)
    ensures
        views(parts@) == fields(s@, sep),
{
    let chars = chars_of(s);
    let mut parts: Vec<String> = Vec::new();
    let mut start: usize = 0;
    let mut i: usize = 0;
    proof {
        assert(chars@.take(0).len() == 0);
        assert(chars@.subrange(0, 0) == Seq::<char>::empty());
        assert(views(parts@) == Seq::<Seq<char>>::empty());
        assert(Seq::<Seq<char>>::empty().push(Seq::<char>::empty()) == seq![
            Seq::<char>::empty(),
        ]);
    }
    while i < chars.len()
        invariant
            chars@ == s@,
            start <= i <= chars.len(),
            fields(chars@.take(i as int), sep) == views(parts@).push(
                chars@.subrange(start as int, i as int),
            ),
        decreases chars.len() - i,
    {
        proof {
            let upto = chars@.take(i + 1);
            assert(upto.drop_last() == chars@.take(i as int));
            assert(upto.last() == chars@[i as int]);
        }
        if chars[i] == sep {
            let piece: String = s.substring_char(start, i).to_owned();
            proof {
                assert(views(parts@.push(piece)) == views(parts@).push(piece@));
                assert(chars@.subrange(i + 1, i + 1) == Seq::<char>::empty());
            }
            parts.push(piece);
            start = i + 1;
        } else {
            proof {
                let held = views(parts@).push(chars@.subrange(start as int, i as int));
                assert(held.drop_last() == views(parts@));
                assert(chars@.subrange(start as int, i as int).push(chars@[i as int])
                    == chars@.subrange(start as int, i + 1));
            }
        }
        i = i + 1;
    }
    let piece: String = s.substring_char(start, i).to_owned();
    proof {
        assert(chars@.take(i as int) == s@);
        assert(views(parts@.push(piece)) == views(parts@).push(piece@));
    }
    parts.push(piece);
    parts
}

/// Reads `chars` as an unsigned decimal that does not exceed `max`.
pub fn parse_decimal(chars: &Vec<char>, max: u32) -> (value: Option<u32>)
    ensures
        match value {
            Some(v) => bounded_decimal(chars@, max as nat) == Some(v as nat),
            None => bounded_decimal(chars@, max as nat) is None,
        },
{
    if chars.len() == 0 {
        return None;
    }
    let mut total: u32 = 0;
    let mut i: usize = 0;
    while i < chars.len()
        invariant
            i <= chars.len(),
            total <= max,
            total == decimal(chars@.take(i as int)),
            all_digits(chars@.take(i as int)),
        decreases chars.len() - i,
    {
        let c: char = chars[i];
        proof {
            let upto = chars@.take(i + 1);
            assert(upto.drop_last() == chars@.take(i as int));
            assert(upto.last() == c);
        }
        if !(c >= '0' && c <= '9') {
            assert(!all_digits(chars@)) by {
                assert(!is_digit(chars@[i as int]));
            }
            return None;
        }
        let d: u64 = (c as u32 - '0' as u32) as u64;
        let next: u64 = total as u64 * 10 + d;
        if next > max as u64 {
            proof {
                lemma_decimal_prefix(chars@, i + 1);
            }
            return None;
        }
        proof {
            let upto = chars@.take(i + 1);
            assert forall|j: int| 0 <= j < upto.len() implies is_digit(#[trigger] upto[j]) by {
                if j < i {
                    assert(upto[j] == chars@.take(i as int)[j]);
                }
            }
        }
        total = next as u32;
        i = i + 1;
    }
    proof {
        assert(chars@.take(i as int) == chars@);
    }
    Some(total)
}

} // verus!
