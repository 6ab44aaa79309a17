//! Splitting text into lines and separated fields, and reading decimal
//! numbers, on character slices.

use crate::text::{seek_char, seek_char_from};
use vstd::prelude::*;

verus! {

/// The character sequences that a list of vectors holds.
pub open spec fn rows(v: Seq<Vec<char>>) -> Seq<Seq<char>> {
    Seq::new(v.len(), |i: int| v[i]@)
}

pub fn to_vec(s: &[char]) -> (out: Vec<char>)
    ensures
        out@ == s@,
{
    let mut out: Vec<char> = Vec::new();
    let mut i: usize = 0;
    while i < s.len()
        invariant
            i <= s.len(),
            out@ == s@.subrange(0, i as int),
        decreases s.len() - i,
    {
        out.push(s[i]);
        i += 1;
        assert(out@ =~= s@.subrange(0, i as int));
    }
    assert(s@.subrange(0, s@.len() as int) =~= s@);
    out
}

/// The pieces of `s[i..]` between occurrences of `sep`. There is always at
/// least one piece; a separator at the very end leaves an empty last piece.
pub open spec fn fields_from(s: Seq<char>, sep: char, i: int) -> Seq<Seq<char>>
    decreases s.len() - i,
{
    let e = seek_char(s, sep, i);
    if 0 <= i <= e < s.len() {
        seq![s.subrange(i, e)] + fields_from(s, sep, e + 1)
    } else {
        seq![s.subrange(i, s.len() as int)]
    }
}

/// The pieces of `s` between occurrences of `sep`.
pub open spec fn fields(s: Seq<char>, sep: char) -> Seq<Seq<char>> {
    fields_from(s, sep, 0)
}

pub fn split_on(s: &[char], sep: char) -> (out: Vec<Vec<char>>)
    ensures
        rows(out@) == fields(s@, sep),
        out.len() >= 1,
{
    let mut out: Vec<Vec<char>> = Vec::new();
    let n = s.len();
    let mut i: usize = 0;
    loop
        invariant
            i <= n,
            n == s.len(),
            rows(out@) + fields_from(s@, sep, i as int) == fields(s@, sep),
        decreases n - i,
    {
        let e = seek_char_from(s, sep, i);
        let ghost before = rows(out@);
        if e < n {
            out.push(to_vec(&s[i..e]));
            assert(rows(out@) =~= before.push(s@.subrange(i as int, e as int)));
            assert(rows(out@) + fields_from(s@, sep, e + 1) =~= before + fields_from(
                s@,
                sep,
                i as int,
            ));
            i = e + 1;
        } else {
            out.push(to_vec(&s[i..n]));
            assert(rows(out@) =~= before.push(s@.subrange(i as int, n as int)));
            assert(rows(out@) =~= before + fields_from(s@, sep, i as int));
            return out;
        }
    }
}

/// `s` without one trailing carriage return.
pub open spec fn without_cr(s: Seq<char>) -> Seq<char> {
    if s.len() > 0 && s.last() == '\r' {
        s.drop_last()
    } else {
        s
    }
}

/// The lines of `s[i..]`. A line ends at a line feed, and a carriage return
/// just before the line feed belongs to the ending. What follows the last
/// line feed is a line only if it is not empty.
pub open spec fn lines_from(s: Seq<char>, i: int) -> Seq<Seq<char>>
    decreases s.len() - i,
{
    let e = seek_char(s, '\n', i);
    if i < 0 || i >= s.len() {
        seq![]
    } else if i <= e < s.len() {
        seq![without_cr(s.subrange(i, e))] + lines_from(s, e + 1)
    } else {
        seq![s.subrange(i, s.len() as int)]
    }
}

pub open spec fn lines(s: Seq<char>) -> Seq<Seq<char>> {
    lines_from(s, 0)
}

pub fn split_lines(s: &[char]) -> (out: Vec<Vec<char>>)
    ensures
        rows(out@) == lines(s@),
{
    let mut out: Vec<Vec<char>> = Vec::new();
    let n = s.len();
    let mut i: usize = 0;
    while i < n
        invariant
            i <= n,
            n == s.len(),
            rows(out@) + lines_from(s@, i as int) == lines(s@),
        decreases n - i,
    {
        let e = seek_char_from(s, '\n', i);
        let ghost before = rows(out@);
        if e < n {
            let end = if e > i && s[e - 1] == '\r' {
                e - 1
            } else {
                e
            };
            out.push(to_vec(&s[i..end]));
            assert(s@.subrange(i as int, end as int) =~= without_cr(
                s@.subrange(i as int, e as int),
            ));
            assert(rows(out@) =~= before.push(without_cr(s@.subrange(i as int, e as int))));
            assert(rows(out@) + lines_from(s@, e + 1) =~= before + lines_from(s@, i as int));
            i = e + 1;
        } else {
            out.push(to_vec(&s[i..n]));
            assert(rows(out@) =~= before.push(s@.subrange(i as int, n as int)));
            assert(rows(out@) =~= before + lines_from(s@, i as int));
            i = n;
            assert(lines_from(s@, n as int) =~= seq![]);
        }
    }
    assert(rows(out@) + lines_from(s@, n as int) =~= rows(out@));
    out
}

pub open spec fn is_digit(c: char) -> bool {
    '0' <= c <= '9'
}

pub open spec fn all_digits(s: Seq<char>) -> bool {
    forall|i: int| 0 <= i < s.len() ==> is_digit(#[trigger] s[i])
}

/// The number that a run of decimal digits spells.
pub open spec fn digits_value(s: Seq<char>) -> nat
    decreases s.len(),
{
    if s.len() == 0 {
        0
    } else {
        digits_value(s.drop_last()) * 10 + (s.last() as u32 - 0x30) as nat
    }
}

/// The number that `s` spells, if it spells one between `lo` and `hi`: an
/// optional sign and at least one decimal digit, nothing else. A minus sign
/// is read only where `lo` is negative.
pub open spec fn decimal(s: Seq<char>, lo: int, hi: int) -> Option<int> {
    let negative = lo < 0 && s.len() > 0 && s[0] == '-';
    let signed = negative || (s.len() > 0 && s[0] == '+');
    let digits = if signed {
        s.subrange(1, s.len() as int)
    } else {
        s
    };
    if digits.len() == 0 || !all_digits(digits) {
        None
    } else {
        let value = if negative {
            -(digits_value(digits) as int)
        } else {
            digits_value(digits) as int
        };
        if lo <= value <= hi {
            Some(value)
        } else {
            None
        }
    }
}

/// Reads a decimal number between `lo` and `hi`.
pub fn parse_decimal(s: &[char], lo: i64, hi: i64) -> (r: Option<i64>)
    requires
        lo <= 0 <= hi,
        lo > i64::MIN,
    ensures
        match r {
            Some(v) => decimal(s@, lo as int, hi as int) == Some(v as int),
            None => decimal(s@, lo as int, hi as int) is None,
        },
{
    let n = s.len();
    if n == 0 {
        return None;
    }
    let negative = lo < 0 && s[0] == '-';
    let start: usize = if negative || s[0] == '+' {
        1
    } else {
        0
    };
    let ghost digits = s@.subrange(start as int, n as int);
    assert(s@.subrange(0, n as int) =~= s@);
    if start == n {
        return None;
    }
    let limit: i64 = if negative {
        -lo
    } else {
        hi
    };
    let mut acc: i64 = 0;
    let mut fits = true;
    let mut i: usize = start;
    assert(digits.subrange(0, 0) =~= Seq::<char>::empty());
    while i < n
        invariant
            start <= i <= n,
            n == s.len(),
            0 <= limit,
            digits == s@.subrange(start as int, n as int),
            0 < n,
            negative == (lo < 0 && s@[0] == '-'),
            start == (if negative || s@[0] == '+' {
                1int
            } else {
                0int
            }),
            s@.subrange(0, n as int) == s@,
            all_digits(digits.subrange(0, i - start)),
            fits ==> 0 <= acc <= limit && acc == digits_value(digits.subrange(0, i - start)),
            !fits ==> digits_value(digits.subrange(0, i - start)) > limit,
        decreases n - i,
    {
        let c = s[i];
        let ghost before = digits.subrange(0, i - start);
        let ghost after = digits.subrange(0, i + 1 - start);
        assert(after.drop_last() =~= before);
        assert(after.last() == c);
        if !('0' <= c && c <= '9') {
            assert(digits[i - start] == c);
            assert(!is_digit(digits[i - start]));
            assert(!all_digits(digits));
            return None;
        }
        assert forall|k: int| 0 <= k < after.len() implies is_digit(#[trigger] after[k]) by {
            if k < before.len() {
                assert(after[k] == before[k]);
            }
        }
        let d: i64 = (c as u32 - 0x30) as i64;
        assert(digits_value(after) == digits_value(before) * 10 + d);
        if fits {
            let wide: i128 = (acc as i128) * 10 + (d as i128);
            if wide > limit as i128 {
                fits = false;
            } else {
                acc = wide as i64;
            }
        }
        i += 1;
    }
    assert(digits.subrange(0, n - start) =~= digits);
    if !fits {
        return None;
    }
    if negative {
        Some(-acc)
    } else {
        Some(acc)
    }
}

pub open spec fn digit_char(d: nat) -> char {
    ((0x30 + d) as u8) as char
}

/// The decimal digits of `n`, without leading zeros.
pub open spec fn digits_of(n: nat) -> Seq<char>
    decreases n,
{
    if n < 10 {
        seq![digit_char(n)]
    } else {
        digits_of(n / 10).push(digit_char(n % 10))
    }
}

/// A number as decimal text, with a minus sign where it is negative.
pub open spec fn number_text(v: int) -> Seq<char> {
    if v < 0 {
        seq!['-'] + digits_of((-v) as nat)
    } else {
        digits_of(v as nat)
    }
}

pub fn push_digits(out: &mut Vec<char>, n: u64)
    ensures
        final(out)@ == old(out)@ + digits_of(n as nat),
    decreases n,
{
    if n >= 10 {
        push_digits(out, n / 10);
    }
    out.push((0x30u8 + (n % 10) as u8) as char);
    assert(out@ =~= old(out)@ + digits_of(n as nat));
}

pub fn number_chars(v: i64) -> (out: Vec<char>)
    ensures
        out@ == number_text(v as int),
{
    let mut out: Vec<char> = Vec::new();
    if v < 0 {
        out.push('-');
        let magnitude: u64 = if v == i64::MIN {
            0x8000_0000_0000_0000
        } else {
            (-v) as u64
        };
        push_digits(&mut out, magnitude);
    } else {
        push_digits(&mut out, v as u64);
    }
    assert(out@ =~= number_text(v as int));
    out
}

pub fn unsigned_chars(v: u64) -> (out: Vec<char>)
    ensures
        out@ == digits_of(v as nat),
{
    let mut out: Vec<char> = Vec::new();
    push_digits(&mut out, v);
    assert(out@ =~= digits_of(v as nat));
    out
}

} // verus!
