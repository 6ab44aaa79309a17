//! Character-level text primitives shared by every parser in the crate.
//!
//! Input strings are turned into `Vec<char>` once; all scanning is done on
//! character slices, whose view is the same `Seq<char>` as the view of the
//! string they came from.

use vstd::prelude::*;
use vstd::std_specs::iter::IteratorSpec;

verus! {

/// `String::push` appends exactly one character to the string.
pub assume_specification[ String::push ](s: &mut String, c: char)
    ensures
        final(s)@ == old(s)@.push(c),
;

/// The characters of `s`, one element per Unicode scalar value.
pub fn chars_of(s: &str) -> (out: Vec<char>)
    ensures
        out@ == s@,
{
    let mut out: Vec<char> = Vec::new();
    let mut it = s.chars();
    proof {
        vstd::string::axiom_spec_iter(s);
    }
    loop
        invariant
            out@ + it.remaining() == s@,
            it.decrease() is Some,
        decreases it.decrease()->0,
    {
        let ghost before = it;
        let r = it.next();
        proof {
            vstd::string::next_postcondition(&before, &it, r);
        }
        match r {
            Some(c) => {
                out.push(c);
                assert(out@ + it.remaining() =~= s@);
            },
            None => {
                assert(out@ =~= s@);
                return out;
            },
        }
    }
}

/// The string made of the characters of `s`.
pub fn string_of(s: &[char]) -> (out: String)
    ensures
        out@ == s@,
{
    let mut out = String::new();
    let mut i: usize = 0;
    while i < s.len()
        invariant
            i <= s.len(),
            out@ == s@.subrange(0, i as int),
        decreases s.len() - i,
    {
        out.push(s[i]);
        i += 1;
        assert(out@ =~= s@.subrange(0, i as int));
    }
    assert(s@.subrange(0, s@.len() as int) =~= s@);
    out
}

/// Appends the characters of `s` to `out`.
pub fn push_chars(out: &mut Vec<char>, s: &[char])
    ensures
        final(out)@ == old(out)@ + s@,
{
    let mut i: usize = 0;
    while i < s.len()
        invariant
            i <= s.len(),
            out@ == old(out)@ + s@.subrange(0, i as int),
        decreases s.len() - i,
    {
        out.push(s[i]);
        i += 1;
        assert(out@ =~= old(out)@ + s@.subrange(0, i as int));
    }
    assert(s@.subrange(0, s@.len() as int) =~= s@);
}

/// Whether two character slices hold the same text.
pub fn same_text(a: &[char], b: &[char]) -> (r: bool)
    ensures
        r == (a@ == b@),
{
    if a.len() != b.len() {
        return false;
    }
    let mut i: usize = 0;
    while i < a.len()
        invariant
            i <= a.len(),
            a.len() == b.len(),
            a@.subrange(0, i as int) == b@.subrange(0, i as int),
        decreases a.len() - i,
    {
        if a[i] != b[i] {
            return false;
        }
        i += 1;
        assert(a@.subrange(0, i as int) =~= a@.subrange(0, i - 1).push(a@[i - 1]));
        assert(b@.subrange(0, i as int) =~= b@.subrange(0, i - 1).push(b@[i - 1]));
    }
    assert(a@.subrange(0, a@.len() as int) =~= a@);
    assert(b@.subrange(0, b@.len() as int) =~= b@);
    true
}

/// Whether the slice spells exactly the literal `lit`.
pub fn is_text(a: &[char], lit: &str) -> (r: bool)
    ensures
        r == (a@ == lit@),
{
    let l = chars_of(lit);
    same_text(a, l.as_slice())
}

/// The code points with the Unicode `White_Space` property.
pub open spec fn is_space(c: char) -> bool {
    let u = c as u32;
    ||| 0x09 <= u <= 0x0D
    ||| u == 0x20
    ||| u == 0x85
    ||| u == 0xA0
    ||| u == 0x1680
    ||| 0x2000 <= u <= 0x200A
    ||| u == 0x2028
    ||| u == 0x2029
    ||| u == 0x202F
    ||| u == 0x205F
    ||| u == 0x3000
}

pub fn is_whitespace_char(c: char) -> (r: bool)
    ensures
        r == is_space(c),
{
    let u = c as u32;
    (0x09 <= u && u <= 0x0D) || u == 0x20 || u == 0x85 || u == 0xA0 || u == 0x1680 || (0x2000 <= u
        && u <= 0x200A) || u == 0x2028 || u == 0x2029 || u == 0x202F || u == 0x205F || u == 0x3000
}

/// First index at or after `i` that does not hold white space (or the length).
pub open spec fn skip_space(s: Seq<char>, i: int) -> int
    decreases s.len() - i,
{
    if 0 <= i < s.len() && is_space(s[i]) {
        skip_space(s, i + 1)
    } else {
        i
    }
}

/// Least end `j >= lo` such that `s[j..hi]` is all white space.
pub open spec fn back_space(s: Seq<char>, lo: int, hi: int) -> int
    decreases hi,
{
    if 0 <= lo < hi <= s.len() && is_space(s[hi - 1]) {
        back_space(s, lo, hi - 1)
    } else {
        hi
    }
}

pub open spec fn trim_start(s: Seq<char>) -> Seq<char> {
    s.subrange(skip_space(s, 0), s.len() as int)
}

/// `s` without leading and trailing white space.
pub open spec fn trim(s: Seq<char>) -> Seq<char> {
    let a = skip_space(s, 0);
    s.subrange(a, back_space(s, a, s.len() as int))
}

pub proof fn lemma_skip_space_bounds(s: Seq<char>, i: int)
    requires
        0 <= i <= s.len(),
    ensures
        i <= skip_space(s, i) <= s.len(),
        skip_space(s, i) < s.len() ==> !is_space(s[skip_space(s, i)]),
        forall|k: int| i <= k < skip_space(s, i) ==> is_space(#[trigger] s[k]),
    decreases s.len() - i,
{
    if i < s.len() && is_space(s[i]) {
        lemma_skip_space_bounds(s, i + 1);
    }
}

pub proof fn lemma_back_space_bounds(s: Seq<char>, lo: int, hi: int)
    requires
        0 <= lo <= hi <= s.len(),
    ensures
        lo <= back_space(s, lo, hi) <= hi,
        lo < back_space(s, lo, hi) ==> !is_space(s[back_space(s, lo, hi) - 1]),
        forall|k: int| back_space(s, lo, hi) <= k < hi ==> is_space(#[trigger] s[k]),
    decreases hi,
{
    if lo < hi && is_space(s[hi - 1]) {
        lemma_back_space_bounds(s, lo, hi - 1);
    }
}

pub fn skip_space_from(s: &[char], from: usize) -> (r: usize)
    requires
        from <= s.len(),
    ensures
        r == skip_space(s@, from as int),
        from <= r <= s.len(),
{
    let mut i = from;
    while i < s.len() && is_whitespace_char(s[i])
        invariant
            from <= i <= s.len(),
            skip_space(s@, from as int) == skip_space(s@, i as int),
        decreases s.len() - i,
    {
        i += 1;
    }
    i
}

pub fn back_space_from(s: &[char], lo: usize, hi: usize) -> (r: usize)
    requires
        lo <= hi <= s.len(),
    ensures
        r == back_space(s@, lo as int, hi as int),
        lo <= r <= hi,
{
    let mut j = hi;
    while lo < j && is_whitespace_char(s[j - 1])
        invariant
            lo <= j <= hi <= s.len(),
            back_space(s@, lo as int, hi as int) == back_space(s@, lo as int, j as int),
        decreases j,
    {
        j -= 1;
    }
    j
}

pub fn trim_slice(s: &[char]) -> (r: &[char])
    ensures
        r@ == trim(s@),
{
    let a = skip_space_from(s, 0);
    let b = back_space_from(s, a, s.len());
    &s[a..b]
}

pub fn trim_start_slice(s: &[char]) -> (r: &[char])
    ensures
        r@ == trim_start(s@),
{
    let a = skip_space_from(s, 0);
    &s[a..s.len()]
}

/// Whether `s` begins with `p`.
pub open spec fn has_prefix(s: Seq<char>, p: Seq<char>) -> bool {
    p.len() <= s.len() && s.subrange(0, p.len() as int) == p
}

/// Whether `s` ends with `p`.
pub open spec fn has_suffix(s: Seq<char>, p: Seq<char>) -> bool {
    p.len() <= s.len() && s.subrange(s.len() - p.len(), s.len() as int) == p
}

/// What follows the prefix `p` in `s`.
pub open spec fn after_prefix(s: Seq<char>, p: Seq<char>) -> Seq<char> {
    s.subrange(p.len() as int, s.len() as int)
}

pub fn starts_with(s: &[char], p: &str) -> (r: bool)
    ensures
        r == has_prefix(s@, p@),
{
    let pc = chars_of(p);
    if pc.len() > s.len() {
        return false;
    }
    same_text(&s[0..pc.len()], pc.as_slice())
}

pub fn ends_with(s: &[char], p: &str) -> (r: bool)
    ensures
        r == has_suffix(s@, p@),
{
    let pc = chars_of(p);
    if pc.len() > s.len() {
        return false;
    }
    same_text(&s[s.len() - pc.len()..s.len()], pc.as_slice())
}

pub fn strip_prefix<'a>(s: &'a [char], p: &str) -> (r: Option<&'a [char]>)
    ensures
        r is Some == has_prefix(s@, p@),
        r is Some ==> r->0@ == after_prefix(s@, p@),
{
    let pc = chars_of(p);
    if pc.len() > s.len() {
        return None;
    }
    if same_text(&s[0..pc.len()], pc.as_slice()) {
        Some(&s[pc.len()..s.len()])
    } else {
        None
    }
}

/// First index at or after `i` that holds `c` (or the length).
pub open spec fn seek_char(s: Seq<char>, c: char, i: int) -> int
    decreases s.len() - i,
{
    if 0 <= i < s.len() && s[i] != c {
        seek_char(s, c, i + 1)
    } else {
        i
    }
}

pub fn seek_char_from(s: &[char], c: char, from: usize) -> (r: usize)
    requires
        from <= s.len(),
    ensures
        r == seek_char(s@, c, from as int),
        from <= r <= s.len(),
{
    let mut i = from;
    while i < s.len() && s[i] != c
        invariant
            from <= i <= s.len(),
            seek_char(s@, c, from as int) == seek_char(s@, c, i as int),
        decreases s.len() - i,
    {
        i += 1;
    }
    i
}

/// Whether `pat` occurs in `s` starting at index `i`.
pub open spec fn occurs_at(s: Seq<char>, pat: Seq<char>, i: int) -> bool {
    0 <= i && i + pat.len() <= s.len() && s.subrange(i, i + pat.len()) == pat
}

/// Whether `pat` occurs somewhere in `s`.
pub open spec fn contains(s: Seq<char>, pat: Seq<char>) -> bool {
    exists|i: int| occurs_at(s, pat, i)
}

/// Index of the first occurrence of `pat` at or after `i`; `s.len() + 1` if
/// there is none.
pub open spec fn seek_text(s: Seq<char>, pat: Seq<char>, i: int) -> int
    decreases s.len() + 1 - i,
{
    if 0 <= i <= s.len() && !occurs_at(s, pat, i) {
        seek_text(s, pat, i + 1)
    } else {
        i
    }
}

pub proof fn lemma_seek_text(s: Seq<char>, pat: Seq<char>, i: int)
    requires
        0 <= i <= s.len() + 1,
    ensures
        i <= seek_text(s, pat, i) <= s.len() + 1,
        seek_text(s, pat, i) <= s.len() ==> occurs_at(s, pat, seek_text(s, pat, i)),
        forall|k: int| i <= k < seek_text(s, pat, i) ==> !occurs_at(s, pat, k),
    decreases s.len() + 1 - i,
{
    if i <= s.len() && !occurs_at(s, pat, i) {
        lemma_seek_text(s, pat, i + 1);
    }
}

/// The search from the start finds an occurrence exactly when there is one.
pub proof fn lemma_contains_iff_found(s: Seq<char>, pat: Seq<char>)
    ensures
        contains(s, pat) <==> seek_text(s, pat, 0) <= s.len(),
{
    lemma_seek_text(s, pat, 0);
    if contains(s, pat) {
        let i = choose|i: int| occurs_at(s, pat, i);
        assert(occurs_at(s, pat, i));
        if seek_text(s, pat, 0) > s.len() {
            assert(!occurs_at(s, pat, i));
        }
    }
}

/// Index of the first occurrence of `pat` in `s` at or after `from`.
pub fn find_text(s: &[char], pat: &[char], from: usize) -> (r: Option<usize>)
    requires
        from <= s.len(),
    ensures
        match r {
            Some(i) => i == seek_text(s@, pat@, from as int) && i + pat@.len() <= s@.len(),
            None => seek_text(s@, pat@, from as int) > s@.len(),
        },
{
    if pat.len() > s.len() {
        proof {
            lemma_seek_text(s@, pat@, from as int);
        }
        return None;
    }
    let last = s.len() - pat.len();
    let mut i = from;
    while i <= last
        invariant
            from <= i,
            last == s.len() - pat.len(),
            i <= s.len() + 1,
            seek_text(s@, pat@, from as int) == seek_text(s@, pat@, i as int),
        decreases s.len() + 1 - i,
    {
        if same_text(&s[i..i + pat.len()], pat) {
            return Some(i);
        }
        if i == last {
            proof {
                lemma_seek_text(s@, pat@, i + 1);
            }
            return None;
        }
        i += 1;
    }
    proof {
        lemma_seek_text(s@, pat@, i as int);
    }
    None
}

/// Whether the literal `pat` occurs in `s`.
pub fn contains_text(s: &[char], pat: &str) -> (r: bool)
    ensures
        r == contains(s@, pat@),
{
    let pc = chars_of(pat);
    proof {
        lemma_contains_iff_found(s@, pc@);
    }
    find_text(s, pc.as_slice(), 0).is_some()
}

/// First index at or after `i` that holds white space (or the length).
pub open spec fn token_end(s: Seq<char>, i: int) -> int
    decreases s.len() - i,
{
    if 0 <= i < s.len() && !is_space(s[i]) {
        token_end(s, i + 1)
    } else {
        i
    }
}

pub proof fn lemma_token_end_bounds(s: Seq<char>, i: int)
    requires
        0 <= i <= s.len(),
    ensures
        i <= token_end(s, i) <= s.len(),
        i < s.len() && !is_space(s[i]) ==> i < token_end(s, i),
    decreases s.len() - i,
{
    if i < s.len() && !is_space(s[i]) {
        lemma_token_end_bounds(s, i + 1);
    }
}

/// Where the first white-space separated word at or after `i` lies, if any.
pub open spec fn token_span(s: Seq<char>, i: int) -> Option<(int, int)> {
    let a = skip_space(s, i);
    if a < s.len() {
        Some((a, token_end(s, a)))
    } else {
        None
    }
}

/// Where the `n`-th white-space separated word of `s` lies, counting from 0
/// and searching from index `i`.
pub open spec fn nth_token_span(s: Seq<char>, i: int, n: nat) -> Option<(int, int)>
    decreases n,
{
    match token_span(s, i) {
        None => None,
        Some((a, b)) => if n == 0 {
            Some((a, b))
        } else {
            nth_token_span(s, b, (n - 1) as nat)
        },
    }
}

/// The `n`-th white-space separated word of `s`, counting from 0.
pub open spec fn nth_token(s: Seq<char>, n: nat) -> Option<Seq<char>> {
    match nth_token_span(s, 0, n) {
        None => None,
        Some((a, b)) => Some(s.subrange(a, b)),
    }
}

/// The next white-space separated word at or after `from`.
pub fn next_token(s: &[char], from: usize) -> (r: Option<(usize, usize)>)
    requires
        from <= s.len(),
    ensures
        match r {
            Some((a, b)) => token_span(s@, from as int) == Some((a as int, b as int)) && from <= a
                < b <= s.len(),
            None => token_span(s@, from as int) is None,
        },
{
    let a = skip_space_from(s, from);
    if a >= s.len() {
        return None;
    }
    let mut b = a;
    proof {
        lemma_skip_space_bounds(s@, from as int);
    }
    while b < s.len() && !is_whitespace_char(s[b])
        invariant
            a <= b <= s.len(),
            token_end(s@, a as int) == token_end(s@, b as int),
        decreases s.len() - b,
    {
        b += 1;
    }
    proof {
        lemma_token_end_bounds(s@, a as int);
    }
    Some((a, b))
}

/// ASCII upper-case letters mapped to lower case; every other character kept.
pub open spec fn ascii_lower(c: char) -> char {
    if 'A' <= c <= 'Z' {
        ((c as u32) + 32) as char
    } else {
        c
    }
}

pub open spec fn ascii_lowercase(s: Seq<char>) -> Seq<char> {
    Seq::new(s.len(), |i: int| ascii_lower(s[i]))
}

pub fn to_ascii_lower(c: char) -> (r: char)
    ensures
        r == ascii_lower(c),
{
    if 'A' <= c && c <= 'Z' {
        (((c as u8) + 32) as char)
    } else {
        c
    }
}

pub fn to_ascii_lowercase(s: &[char]) -> (out: Vec<char>)
    ensures
        out@ == ascii_lowercase(s@),
{
    let mut out: Vec<char> = Vec::new();
    let mut i: usize = 0;
    while i < s.len()
        invariant
            i <= s.len(),
            out@ == ascii_lowercase(s@.subrange(0, i as int)),
        decreases s.len() - i,
    {
        out.push(to_ascii_lower(s[i]));
        i += 1;
        assert(out@ =~= ascii_lowercase(s@.subrange(0, i as int)));
    }
    assert(s@.subrange(0, s@.len() as int) =~= s@);
    out
}

/// Whether two strings hold the same text.
pub fn str_eq(a: &str, b: &str) -> (r: bool)
    ensures
        r == (a@ == b@),
{
    let ac = chars_of(a);
    let bc = chars_of(b);
    same_text(ac.as_slice(), bc.as_slice())
}

/// An owned copy of a string.
pub fn text_of(s: &str) -> (r: String)
    ensures
        r@ == s@,
{
    string_of(chars_of(s).as_slice())
}

/// `s` without its occurrences of `c`.
pub open spec fn without_char(s: Seq<char>, c: char) -> Seq<char>
    decreases s.len(),
{
    if s.len() == 0 {
        s
    } else if s.last() == c {
        without_char(s.drop_last(), c)
    } else {
        without_char(s.drop_last(), c).push(s.last())
    }
}

pub fn remove_char(s: &[char], c: char) -> (out: Vec<char>)
    ensures
        out@ == without_char(s@, c),
{
    let mut out: Vec<char> = Vec::new();
    let mut i: usize = 0;
    while i < s.len()
        invariant
            i <= s.len(),
            out@ == without_char(s@.subrange(0, i as int), c),
        decreases s.len() - i,
    {
        assert(s@.subrange(0, i + 1).drop_last() =~= s@.subrange(0, i as int));
        if s[i] != c {
            out.push(s[i]);
        }
        i += 1;
    }
    assert(s@.subrange(0, s@.len() as int) =~= s@);
    out
}

/// `s` with every `from` replaced by `to`.
pub open spec fn with_char_replaced(s: Seq<char>, from: char, to: char) -> Seq<char> {
    Seq::new(
        s.len(),
        |i: int|
            if s[i] == from {
                to
            } else {
                s[i]
            },
    )
}

pub fn replace_char(s: &[char], from: char, to: char) -> (out: Vec<char>)
    ensures
        out@ == with_char_replaced(s@, from, to),
{
    let mut out: Vec<char> = Vec::new();
    let mut i: usize = 0;
    while i < s.len()
        invariant
            i <= s.len(),
            out@ == with_char_replaced(s@.subrange(0, i as int), from, to),
        decreases s.len() - i,
    {
        let c = s[i];
        out.push(if c == from {
            to
        } else {
            c
        });
        i += 1;
        assert(out@ =~= with_char_replaced(s@.subrange(0, i as int), from, to));
    }
    assert(s@.subrange(0, s@.len() as int) =~= s@);
    out
}

/// `s` without the occurrences of `c` at its end.
pub open spec fn without_trailing(s: Seq<char>, c: char) -> Seq<char>
    decreases s.len(),
{
    if s.len() > 0 && s.last() == c {
        without_trailing(s.drop_last(), c)
    } else {
        s
    }
}

pub fn strip_trailing(s: &[char], c: char) -> (r: &[char])
    ensures
        r@ == without_trailing(s@, c),
{
    let mut n = s.len();
    assert(s@.subrange(0, n as int) =~= s@);
    while n > 0 && s[n - 1] == c
        invariant
            n <= s.len(),
            without_trailing(s@, c) == without_trailing(s@.subrange(0, n as int), c),
        decreases n,
    {
        assert(s@.subrange(0, n as int).drop_last() =~= s@.subrange(0, n - 1));
        n -= 1;
    }
    &s[0..n]
}

/// First index at or after `i` that does not hold `c` (or the length).
pub open spec fn skip_char(s: Seq<char>, c: char, i: int) -> int
    decreases s.len() - i,
{
    if 0 <= i < s.len() && s[i] == c {
        skip_char(s, c, i + 1)
    } else {
        i
    }
}

/// `s` without the occurrences of `c` at its start.
pub open spec fn without_leading(s: Seq<char>, c: char) -> Seq<char> {
    s.subrange(skip_char(s, c, 0), s.len() as int)
}

pub fn strip_leading(s: &[char], c: char) -> (r: &[char])
    ensures
        r@ == without_leading(s@, c),
{
    let mut i: usize = 0;
    while i < s.len() && s[i] == c
        invariant
            i <= s.len(),
            skip_char(s@, c, 0) == skip_char(s@, c, i as int),
        decreases s.len() - i,
    {
        i += 1;
    }
    &s[i..s.len()]
}

/// Whether `a` comes before `b`, or is `b`, in the order of `str`:
/// character by character, a prefix before what it is a prefix of.
pub open spec fn text_le(a: Seq<char>, b: Seq<char>) -> bool
    decreases a.len(),
{
    if a.len() == 0 {
        true
    } else if b.len() == 0 {
        false
    } else if a[0] != b[0] {
        (a[0] as u32) < (b[0] as u32)
    } else {
        text_le(a.drop_first(), b.drop_first())
    }
}

pub fn text_precedes(a: &[char], b: &[char]) -> (r: bool)
    ensures
        r == text_le(a@, b@),
{
    let mut i: usize = 0;
    assert(a@.skip(0) =~= a@);
    assert(b@.skip(0) =~= b@);
    loop
        invariant
            i <= a.len(),
            i <= b.len(),
            text_le(a@, b@) == text_le(a@.skip(i as int), b@.skip(i as int)),
        decreases a.len() - i,
    {
        if i >= a.len() {
            return true;
        }
        if i >= b.len() {
            return false;
        }
        if a[i] != b[i] {
            return (a[i] as u32) < (b[i] as u32);
        }
        assert(a@.skip(i as int).drop_first() =~= a@.skip(i + 1));
        assert(b@.skip(i as int).drop_first() =~= b@.skip(i + 1));
        i += 1;
    }
}

/// Trimming what is trimmed changes nothing.
pub proof fn lemma_trim_idempotent(s: Seq<char>)
    ensures
        trim(trim(s)) == trim(s),
{
    let a = skip_space(s, 0);
    lemma_skip_space_bounds(s, 0);
    let b = back_space(s, a, s.len() as int);
    lemma_back_space_bounds(s, a, s.len() as int);
    let t = s.subrange(a, b);
    if t.len() > 0 {
        assert(t[0] == s[a]);
        assert(t[t.len() - 1] == s[b - 1]);
        assert(skip_space(t, 0) == 0);
        assert(back_space(t, 0, t.len() as int) == t.len());
        assert(t.subrange(0, t.len() as int) =~= t);
    } else {
        assert(skip_space(t, 0) == 0);
        assert(back_space(t, 0, 0) == 0);
        assert(t.subrange(0, 0) =~= t);
    }
}

/// What is trimmed neither begins nor ends with white space, and what was
/// cut off at either end is white space throughout.
pub proof fn lemma_trim_is_clean(s: Seq<char>)
    ensures
        trim(s).len() > 0 ==> !is_space(trim(s)[0]) && !is_space(trim(s).last()),
        ({
            let a = skip_space(s, 0);
            let b = back_space(s, a, s.len() as int);
            &&& 0 <= a <= b <= s.len()
            &&& forall|k: int| 0 <= k < a ==> is_space(#[trigger] s[k])
            &&& forall|k: int| b <= k < s.len() ==> is_space(#[trigger] s[k])
        }),
{
    let a = skip_space(s, 0);
    lemma_skip_space_bounds(s, 0);
    let b = back_space(s, a, s.len() as int);
    lemma_back_space_bounds(s, a, s.len() as int);
    let t = s.subrange(a, b);
    if t.len() > 0 {
        assert(t[0] == s[a]);
        assert(t.last() == s[b - 1]);
    }
}

/// A word holds no white space and is not empty, white space alone stands
/// before it, and it ends where white space begins or the text ends.
pub proof fn lemma_token_is_word(s: Seq<char>, i: int)
    requires
        0 <= i <= s.len(),
    ensures
        match token_span(s, i) {
            Some((a, b)) => {
                &&& i <= a < b <= s.len()
                &&& forall|k: int| i <= k < a ==> is_space(#[trigger] s[k])
                &&& forall|k: int| a <= k < b ==> !is_space(#[trigger] s[k])
                &&& (b < s.len() ==> is_space(s[b]))
            },
            None => forall|k: int| i <= k < s.len() ==> is_space(#[trigger] s[k]),
        },
{
    lemma_skip_space_bounds(s, i);
    let a = skip_space(s, i);
    if a < s.len() {
        lemma_token_run(s, a);
    }
}

proof fn lemma_token_run(s: Seq<char>, a: int)
    requires
        0 <= a <= s.len(),
    ensures
        a <= token_end(s, a) <= s.len(),
        forall|k: int| a <= k < token_end(s, a) ==> !is_space(#[trigger] s[k]),
        token_end(s, a) < s.len() ==> is_space(s[token_end(s, a)]),
        a < s.len() && !is_space(s[a]) ==> a < token_end(s, a),
    decreases s.len() - a,
{
    if a < s.len() && !is_space(s[a]) {
        lemma_token_run(s, a + 1);
    }
}

/// Any two texts are ordered one way or the other.
pub proof fn lemma_text_le_total(a: Seq<char>, b: Seq<char>)
    ensures
        text_le(a, b) || text_le(b, a),
    decreases a.len(),
{
    if a.len() > 0 && b.len() > 0 {
        if a[0] == b[0] {
            lemma_text_le_total(a.drop_first(), b.drop_first());
        } else {
            vstd::utf8::char_u32_cast(a[0], a[0] as u32);
            vstd::utf8::char_u32_cast(b[0], b[0] as u32);
        }
    }
}

/// A search for a character ends within the text.
pub proof fn lemma_seek_char_range(s: Seq<char>, c: char, i: int)
    requires
        0 <= i <= s.len(),
    ensures
        i <= seek_char(s, c, i) <= s.len(),
    decreases s.len() - i,
{
    if i < s.len() && s[i] != c {
        lemma_seek_char_range(s, c, i + 1);
    }
}

/// Whether a text is one word: not empty, and without white space.
pub open spec fn is_word(w: Seq<char>) -> bool {
    w.len() > 0 && forall|k: int| 0 <= k < w.len() ==> !is_space(#[trigger] w[k])
}

/// A stretch without white space that white space, or the end, follows is
/// where a word ends.
pub proof fn lemma_token_end_of_run(s: Seq<char>, a: int, b: int)
    requires
        0 <= a <= b <= s.len(),
        forall|k: int| a <= k < b ==> !is_space(#[trigger] s[k]),
        b < s.len() ==> is_space(s[b]),
    ensures
        token_end(s, a) == b,
    decreases b - a,
{
    if a < b {
        lemma_token_end_of_run(s, a + 1, b);
    }
}

/// The word that stands at `a`, one space after the end `i` of the word
/// before it, is the next word.
pub proof fn lemma_next_word(s: Seq<char>, i: int, a: int, b: int)
    requires
        0 <= i <= a < b <= s.len(),
        a == i || (a == i + 1 && is_space(s[i])),
        forall|k: int| a <= k < b ==> !is_space(#[trigger] s[k]),
        b < s.len() ==> is_space(s[b]),
    ensures
        token_span(s, i) == Some((a, b)),
{
    lemma_token_end_of_run(s, a, b);
    assert(!is_space(s[a]));
    if a == i + 1 {
        assert(skip_space(s, i) == skip_space(s, i + 1));
    }
}

} // verus!
