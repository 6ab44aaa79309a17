//! The reader's side of the channel: bytes in, as they were read; complete
//! lines out.

use crate::reassembly::{drain_utf8_bytes, lemma_lossy_append, lossy_rest, lossy_text};
use crate::text::{chars_of, push_chars, seek_char, seek_char_from, string_of};
use vstd::prelude::*;

verus! {

/// `s` without the carriage returns at its end.
pub open spec fn without_trailing_cr(s: Seq<char>) -> Seq<char>
    decreases s.len(),
{
    if s.len() > 0 && s.last() == '\r' {
        without_trailing_cr(s.drop_last())
    } else {
        s
    }
}

/// The lines of `s[i..]` that a line feed has ended, each without the line
/// feed and without carriage returns before it.
pub open spec fn complete_lines(s: Seq<char>, i: int) -> Seq<Seq<char>>
    decreases s.len() - i,
{
    let e = seek_char(s, '\n', i);
    if 0 <= i <= e < s.len() {
        seq![without_trailing_cr(s.subrange(i, e))] + complete_lines(s, e + 1)
    } else {
        seq![]
    }
}

/// What stands in `s[i..]` after the last line feed: the beginning of a line
/// whose end has not been read yet.
pub open spec fn unfinished(s: Seq<char>, i: int) -> Seq<char>
    decreases s.len() - i,
{
    let e = seek_char(s, '\n', i);
    if 0 <= i <= e < s.len() {
        unfinished(s, e + 1)
    } else {
        s.subrange(i, s.len() as int)
    }
}

/// Puts lines together from the chunks that reads deliver.
pub struct LineAssembler {
    pending_bytes: Vec<u8>,
    pending: Vec<char>,
}

pub struct AssemblerView {
    /// The bytes of a character that is not complete yet.
    pub pending_bytes: Seq<u8>,
    /// The text of a line that is not complete yet.
    pub pending: Seq<char>,
}

impl View for LineAssembler {
    type V = AssemblerView;

    closed spec fn view(&self) -> AssemblerView {
        AssemblerView { pending_bytes: self.pending_bytes@, pending: self.pending@ }
    }
}

pub open spec fn texts(lines: Seq<String>) -> Seq<Seq<char>> {
    Seq::new(lines.len(), |i: int| lines[i]@)
}

/// All the text at hand once `chunk` has been read: the unfinished line
/// from before, and what the bytes held back together with the chunk
/// decode to.
pub open spec fn text_at_hand(a: AssemblerView, chunk: Seq<u8>) -> Seq<char> {
    a.pending + lossy_text(a.pending_bytes + chunk)
}

/// What pushing one chunk gives: the lines that it completes, and the
/// assembler afterwards.
pub open spec fn pushed(a: AssemblerView, chunk: Seq<u8>) -> (Seq<Seq<char>>, AssemblerView) {
    let text = text_at_hand(a, chunk);
    (
        complete_lines(text, 0),
        AssemblerView {
            pending_bytes: lossy_rest(a.pending_bytes + chunk),
            pending: unfinished(text, 0),
        },
    )
}

fn strip_cr(s: &[char]) -> (r: &[char])
    ensures
        r@ == without_trailing_cr(s@),
{
    let mut n = s.len();
    assert(s@.subrange(0, n as int) =~= s@);
    while n > 0 && s[n - 1] == '\r'
        invariant
            n <= s.len(),
            without_trailing_cr(s@) == without_trailing_cr(s@.subrange(0, n as int)),
        decreases n,
    {
        assert(s@.subrange(0, n as int).drop_last() =~= s@.subrange(0, n - 1));
        n -= 1;
    }
    &s[0..n]
}

impl LineAssembler {
    pub fn new() -> (a: Self)
        ensures
            a@.pending_bytes.len() == 0,
            a@.pending.len() == 0,
    {
        LineAssembler { pending_bytes: Vec::new(), pending: Vec::new() }
    }

    /// Takes in the bytes of one read and gives out the lines that they
    /// complete, in order. The end of the chunk may cut a character or a
    /// line in two: what is cut waits for the next chunk.
    pub fn push_chunk(&mut self, chunk: &[u8]) -> (lines: Vec<String>)
        ensures
            (texts(lines@), final(self)@) == pushed(old(self)@, chunk@),
    {
        let mut i: usize = 0;
        while i < chunk.len()
            invariant
                i <= chunk.len(),
                self.pending == old(self).pending,
                self.pending_bytes@ == old(self).pending_bytes@ + chunk@.subrange(0, i as int),
            decreases chunk.len() - i,
        {
            self.pending_bytes.push(chunk[i]);
            i += 1;
            assert(self.pending_bytes@ =~= old(self).pending_bytes@ + chunk@.subrange(
                0,
                i as int,
            ));
        }
        assert(chunk@.subrange(0, chunk@.len() as int) =~= chunk@);
        let decoded = drain_utf8_bytes(&mut self.pending_bytes);
        let decoded_chars = chars_of(decoded.as_str());
        push_chars(&mut self.pending, decoded_chars.as_slice());
        let ghost all = text_at_hand(old(self)@, chunk@);
        assert(self.pending@ == all);
        let n = self.pending.len();
        let mut lines: Vec<String> = Vec::new();
        let mut start: usize = 0;
        loop
            invariant_except_break
                texts(lines@) + complete_lines(all, start as int) == complete_lines(all, 0),
                unfinished(all, start as int) == unfinished(all, 0),
            invariant
                start <= n,
                n == self.pending.len(),
                self.pending@ == all,
                self.pending_bytes@ == lossy_rest(old(self)@.pending_bytes + chunk@),
            ensures
                texts(lines@) == complete_lines(all, 0),
                all.subrange(start as int, n as int) == unfinished(all, 0),
            decreases n - start,
        {
            let e = seek_char_from(self.pending.as_slice(), '\n', start);
            if e >= n {
                assert(texts(lines@) + complete_lines(all, start as int) =~= texts(lines@));
                break ;
            }
            let ghost before = texts(lines@);
            let line = strip_cr(&self.pending.as_slice()[start..e]);
            lines.push(string_of(line));
            assert(texts(lines@) =~= before.push(
                without_trailing_cr(all.subrange(start as int, e as int)),
            ));
            assert(texts(lines@) + complete_lines(all, e + 1) =~= before + complete_lines(
                all,
                start as int,
            ));
            start = e + 1;
        }
        let rest = self.pending.split_off(start);
        self.pending = rest;
        lines
    }
}

proof fn lemma_seek_shift(t: Seq<char>, c: char, i: int, k: int)
    requires
        0 <= i <= k <= t.len(),
    ensures
        seek_char(t, c, k) == i + seek_char(t.skip(i), c, k - i),
    decreases t.len() - k,
{
    let u = t.skip(i);
    if k < t.len() {
        assert(u[k - i] == t[k]);
        if t[k] != c {
            lemma_seek_shift(t, c, i, k + 1);
        }
    }
}

proof fn lemma_lines_shift(t: Seq<char>, i: int, k: int)
    requires
        0 <= i <= k <= t.len(),
    ensures
        complete_lines(t, k) == complete_lines(t.skip(i), k - i),
        unfinished(t, k) == unfinished(t.skip(i), k - i),
    decreases t.len() - k,
{
    let u = t.skip(i);
    lemma_seek_shift(t, '\n', i, k);
    crate::text::lemma_seek_char_range(t, '\n', k);
    let e = seek_char(t, '\n', k);
    if e < t.len() {
        assert(u.subrange(k - i, e - i) =~= t.subrange(k, e));
        lemma_lines_shift(t, i, e + 1);
    } else {
        assert(u.subrange(k - i, u.len() as int) =~= t.subrange(k, t.len() as int));
    }
}

proof fn lemma_seek_prefix(s: Seq<char>, x: Seq<char>, c: char, k: int)
    requires
        0 <= k <= s.len(),
    ensures
        seek_char(s, c, k) < s.len() ==> seek_char(s + x, c, k) == seek_char(s, c, k),
        seek_char(s, c, k) >= s.len() ==> seek_char(s + x, c, k) >= s.len(),
    decreases s.len() - k,
{
    let t = s + x;
    if k < s.len() {
        assert(t[k] == s[k]);
        if s[k] != c {
            lemma_seek_prefix(s, x, c, k + 1);
        }
    } else {
        crate::text::lemma_seek_char_range(t, c, k);
    }
}

/// More text after `s` completes the lines of `s`, then those of what `s`
/// left unfinished together with the new text.
proof fn lemma_lines_append(s: Seq<char>, x: Seq<char>, k: int)
    requires
        0 <= k <= s.len(),
    ensures
        complete_lines(s + x, k) == complete_lines(s, k) + complete_lines(unfinished(s, k) + x, 0),
        unfinished(s + x, k) == unfinished(unfinished(s, k) + x, 0),
    decreases s.len() - k,
{
    let t = s + x;
    lemma_seek_prefix(s, x, '\n', k);
    crate::text::lemma_seek_char_range(s, '\n', k);
    let e = seek_char(s, '\n', k);
    if e < s.len() {
        assert(t.subrange(k, e) =~= s.subrange(k, e));
        lemma_lines_append(s, x, e + 1);
        assert(complete_lines(t, k) =~= complete_lines(s, k) + complete_lines(
            unfinished(s, k) + x,
            0,
        ));
    } else {
        assert(complete_lines(s, k) =~= Seq::<Seq<char>>::empty());
        assert(unfinished(s, k) == s.subrange(k, s.len() as int));
        lemma_lines_shift(t, k, k);
        assert(t.skip(k) =~= s.subrange(k, s.len() as int) + x);
        assert(complete_lines(t, k) =~= complete_lines(s, k) + complete_lines(
            unfinished(s, k) + x,
            0,
        ));
    }
}

/// Where reads cut the stream does not matter: two chunks pushed one after
/// the other give the lines, and leave the assembler, that the two pushed
/// as one chunk would.
pub proof fn lemma_cuts_do_not_matter(a: AssemblerView, first: Seq<u8>, second: Seq<u8>)
    ensures
        ({
            let (first_lines, between) = pushed(a, first);
            let (second_lines, after) = pushed(between, second);
            pushed(a, first + second) == (first_lines + second_lines, after)
        }),
{
    let held = a.pending_bytes + first;
    lemma_lossy_append(held, second);
    assert(a.pending_bytes + (first + second) =~= held + second);
    let text = text_at_hand(a, first);
    let more = lossy_text(lossy_rest(held) + second);
    assert(text_at_hand(a, first + second) =~= text + more);
    lemma_lines_append(text, more, 0);
}

} // verus!
