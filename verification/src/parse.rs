//! Parsing of a line of input into an attempt value: the line is trimmed of
//! surrounding whitespace and must then be a decimal integer (an optional
//! leading plus sign followed by one or more digits) whose value fits in
//! `u32`. Anything else is a malformed attempt.

use vstd::prelude::*;

verus! {

/// Whether a byte is ASCII whitespace (space, tab, line feed, vertical tab,
/// form feed or carriage return).
pub open spec fn is_space(b: u8) -> bool {
    b == 32 || (9 <= b && b <= 13)
}

/// Whether a byte is an ASCII decimal digit.
pub open spec fn is_digit(b: u8) -> bool {
    48 <= b && b <= 57
}

/// The number of whitespace bytes at the front of `s`.
pub open spec fn leading_spaces(s: Seq<u8>) -> int
    decreases s.len(),
{
    if s.len() == 0 || !is_space(s[0]) {
        0
    } else {
        1 + leading_spaces(s.drop_first())
    }
}

/// The number of whitespace bytes at the back of `s`.
pub open spec fn trailing_spaces(s: Seq<u8>) -> int
    decreases s.len(),
{
    if s.len() == 0 || !is_space(s.last()) {
        0
    } else {
        1 + trailing_spaces(s.drop_last())
    }
}

/// `s` with leading and trailing whitespace removed.
pub open spec fn trim_spec(s: Seq<u8>) -> Seq<u8> {
    let i = leading_spaces(s);
    let j = s.len() - trailing_spaces(s);
    if i <= j {
        s.subrange(i, j)
    } else {
        Seq::empty()
    }
}

/// Whether every byte of `s` is a decimal digit.
pub open spec fn all_digits(s: Seq<u8>) -> bool {
    forall|i: int| 0 <= i < s.len() ==> is_digit(#[trigger] s[i])
}

/// The value of a sequence of decimal digit bytes, most significant first.
pub open spec fn digits_val(s: Seq<u8>) -> int
    decreases s.len(),
{
    if s.len() == 0 {
        0
    } else {
        digits_val(s.drop_last()) * 10 + (s.last() - 48)
    }
}

/// The digits of a well-formed attempt: the trimmed line with an optional
/// leading plus sign removed.
pub open spec fn digits_of(s: Seq<u8>) -> Seq<u8> {
    let t = trim_spec(s);
    if t.len() > 0 && t[0] == 43 {
        t.drop_first()
    } else {
        t
    }
}

/// What parsing a line as a `u32` attempt yields: the value of its digits if
/// the trimmed line is a well-formed decimal integer that fits, else nothing.
pub open spec fn parse_u32_spec(s: Seq<u8>) -> Option<u32> {
    let d = digits_of(s);
    if d.len() > 0 && all_digits(d) && digits_val(d) <= u32::MAX {
        Some(digits_val(d) as u32)
    } else {
        None
    }
}

proof fn lemma_leading_spaces_at(s: Seq<u8>, i: int)
    requires
        0 <= i <= s.len(),
        forall|k: int| 0 <= k < i ==> is_space(#[trigger] s[k]),
        i < s.len() ==> !is_space(s[i]),
    ensures
        leading_spaces(s) == i,
    decreases i,
{
    if i > 0 {
        lemma_leading_spaces_at(s.drop_first(), i - 1);
    }
}

proof fn lemma_trailing_spaces_at(s: Seq<u8>, j: int)
    requires
        0 <= j <= s.len(),
        forall|k: int| j <= k < s.len() ==> is_space(#[trigger] s[k]),
        j > 0 ==> !is_space(s[j - 1]),
    ensures
        trailing_spaces(s) == s.len() - j,
    decreases s.len() - j,
{
    if j < s.len() {
        lemma_trailing_spaces_at(s.drop_last(), j);
    }
}

proof fn lemma_digits_val_nonneg(s: Seq<u8>)
    requires
        all_digits(s),
    ensures
        digits_val(s) >= 0,
    decreases s.len(),
{
    if s.len() > 0 {
        lemma_digits_val_nonneg(s.drop_last());
    }
}

proof fn lemma_digits_val_step(s: Seq<u8>, a: int, b: int)
    requires
        0 <= a <= b < s.len(),
    ensures
        digits_val(s.subrange(a, b + 1)) == digits_val(s.subrange(a, b)) * 10 + (s[b] - 48),
{
    let ext = s.subrange(a, b + 1);
    assert(ext.drop_last() =~= s.subrange(a, b));
}

proof fn lemma_digits_val_prefix_le(s: Seq<u8>, i: int)
    requires
        all_digits(s),
        0 <= i <= s.len(),
    ensures
        digits_val(s.subrange(0, i)) <= digits_val(s),
    decreases s.len() - i,
{
    if i == s.len() {
        assert(s.subrange(0, i) =~= s);
    } else {
        lemma_digits_val_step(s, 0, i);
        let p = s.subrange(0, i);
        assert(all_digits(p));
        lemma_digits_val_nonneg(p);
        lemma_digits_val_prefix_le(s, i + 1);
    }
}

fn is_space_byte(b: u8) -> (r: bool)
    ensures
        r == is_space(b),
{
    b == 32 || (9 <= b && b <= 13)
}

/// Parse a line of input as a `u32` attempt: trim surrounding whitespace,
/// accept an optional leading plus sign followed by one or more decimal
/// digits, and reject anything else or a value that does not fit.
pub fn parse_u32(s: &[u8]) -> (r: Option<u32>)
    ensures
        r == parse_u32_spec(s@),
{
    let n = s.len();

    let mut start: usize = 0;
    while start < n && is_space_byte(s[start])
        invariant
            0 <= start <= n == s@.len(),
            forall|k: int| 0 <= k < start ==> is_space(#[trigger] s@[k]),
        decreases n - start,
    {
        start += 1;
    }
    if start == n {
        // The line is empty or all whitespace: there is no digit to parse.
        proof {
            lemma_leading_spaces_at(s@, n as int);
            lemma_trailing_spaces_at(s@, 0);
            assert(digits_of(s@).len() == 0);
        }
        return None;
    }
    proof {
        lemma_leading_spaces_at(s@, start as int);
    }

    let mut end: usize = n;
    while is_space_byte(s[end - 1])
        invariant
            start < end <= n == s@.len(),
            start < n,
            !is_space(s@[start as int]),
            forall|k: int| end <= k < n ==> is_space(#[trigger] s@[k]),
        decreases end,
    {
        end -= 1;
    }
    proof {
        lemma_trailing_spaces_at(s@, end as int);
        assert(trim_spec(s@) =~= s@.subrange(start as int, end as int));
    }

    let mut i: usize = start;
    if s[i] == 43 {
        i += 1;
    }
    let dstart: usize = i;
    proof {
        assert(digits_of(s@) =~= s@.subrange(dstart as int, end as int));
    }
    if i == end {
        // The trimmed line is a lone plus sign.
        return None;
    }

    let ghost d = digits_of(s@);
    let mut acc: u32 = 0;
    while i < end
        invariant
            dstart <= i <= end <= n == s@.len(),
            dstart < end,
            d == digits_of(s@),
            d =~= s@.subrange(dstart as int, end as int),
            all_digits(s@.subrange(dstart as int, i as int)),
            acc == digits_val(s@.subrange(dstart as int, i as int)),
        decreases end - i,
    {
        let b = s[i];
        if b < 48 || b > 57 {
            proof {
                assert(d[i - dstart] == s@[i as int]);
                assert(!all_digits(d));
            }
            return None;
        }
        let digit: u32 = (b - 48) as u32;
        let limit: u32 = u32::MAX / 10;
        if acc > limit || (acc == limit && digit > u32::MAX % 10) {
            // The digits read so far already exceed the largest `u32`.
            proof {
                lemma_digits_val_step(s@, dstart as int, i as int);
                assert(digits_val(s@.subrange(dstart as int, i + 1)) > u32::MAX);
                if all_digits(d) {
                    lemma_digits_val_prefix_le(d, i + 1 - dstart);
                    assert(d.subrange(0, i + 1 - dstart) =~= s@.subrange(
                        dstart as int,
                        i + 1,
                    ));
                }
            }
            return None;
        }
        proof {
            lemma_digits_val_step(s@, dstart as int, i as int);
            assert forall|k: int| 0 <= k < (i + 1 - dstart) implies is_digit(
                #[trigger] s@.subrange(dstart as int, i + 1)[k],
            ) by {
                if k < i - dstart {
                    assert(s@.subrange(dstart as int, i as int)[k] == s@.subrange(
                        dstart as int,
                        i + 1,
                    )[k]);
                }
            }
        }
        acc = acc * 10 + digit;
        i += 1;
    }
    proof {
        assert(s@.subrange(dstart as int, end as int) =~= d);
    }
    Some(acc)
}

} // verus!
