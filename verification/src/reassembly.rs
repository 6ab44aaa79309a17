//! Byte stream reassembly: UTF-8 decoding that survives reads cut in the
//! middle of a character, and the backslash-octal escaping of pane output.

use vstd::prelude::*;
use vstd::utf8::*;

verus! {

/// `char::from_u32` gives the character with the given scalar value, and
/// nothing for a value that is not a Unicode scalar.
pub assume_specification[ char::from_u32 ](i: u32) -> (r: Option<char>)
    ensures
        r == (if is_scalar(i) {
            Some(i as char)
        } else {
            None::<char>
        }),
;

/// How many bytes a sequence that starts with `b0` takes; 0 where no
/// well-formed sequence starts with `b0`.
pub open spec fn lead_width(b0: u8) -> int {
    if b0 <= 0x7F {
        1
    } else if 0xC2 <= b0 <= 0xDF {
        2
    } else if 0xE0 <= b0 <= 0xEF {
        3
    } else if 0xF0 <= b0 <= 0xF4 {
        4
    } else {
        0
    }
}

/// Whether `b1` may follow the lead byte `b0`: a continuation byte, narrowed
/// where the lead byte would otherwise admit an overlong form, a surrogate
/// or a value above U+10FFFF.
pub open spec fn second_byte_fits(b0: u8, b1: u8) -> bool {
    if b0 == 0xE0 {
        0xA0 <= b1 <= 0xBF
    } else if b0 == 0xED {
        0x80 <= b1 <= 0x9F
    } else if b0 == 0xF0 {
        0x90 <= b1 <= 0xBF
    } else if b0 == 0xF4 {
        0x80 <= b1 <= 0x8F
    } else {
        0x80 <= b1 <= 0xBF
    }
}

/// What stands at the front of a non-empty byte sequence.
pub enum Head {
    /// A complete, well-formed character of `len` bytes.
    Scalar { len: int },
    /// The beginning of a well-formed character whose end is not there yet.
    Incomplete,
    /// `len` bytes that no well-formed character can begin with.
    Invalid { len: int },
}

pub open spec fn head(bytes: Seq<u8>) -> Head
    recommends
        bytes.len() > 0,
{
    let w = lead_width(bytes[0]);
    if w == 0 {
        Head::Invalid { len: 1 }
    } else if w == 1 {
        Head::Scalar { len: 1 }
    } else if bytes.len() < 2 {
        Head::Incomplete
    } else if !second_byte_fits(bytes[0], bytes[1]) {
        Head::Invalid { len: 1 }
    } else if w == 2 {
        Head::Scalar { len: 2 }
    } else if bytes.len() < 3 {
        Head::Incomplete
    } else if !is_continuation_byte(bytes[2]) {
        Head::Invalid { len: 2 }
    } else if w == 3 {
        Head::Scalar { len: 3 }
    } else if bytes.len() < 4 {
        Head::Incomplete
    } else if !is_continuation_byte(bytes[3]) {
        Head::Invalid { len: 3 }
    } else {
        Head::Scalar { len: 4 }
    }
}

/// How many bytes the head of `bytes` covers; 0 for an incomplete head.
pub open spec fn head_len(bytes: Seq<u8>) -> int {
    match head(bytes) {
        Head::Scalar { len } => len,
        Head::Incomplete => 0,
        Head::Invalid { len } => len,
    }
}

pub open spec fn replacement() -> char {
    '\u{FFFD}'
}

/// The text that lossy decoding gives for `bytes`: each well-formed character
/// as it is, U+FFFD for each ill-formed stretch, and nothing for an
/// incomplete character at the very end.
pub open spec fn lossy_text(bytes: Seq<u8>) -> Seq<char>
    decreases bytes.len(),
{
    if bytes.len() == 0 {
        seq![]
    } else {
        match head(bytes) {
            Head::Scalar { len } => seq![decode_first_scalar(bytes) as char] + lossy_text(
                bytes.skip(len),
            ),
            Head::Incomplete => seq![],
            Head::Invalid { len } => seq![replacement()] + lossy_text(bytes.skip(len)),
        }
    }
}

/// The incomplete character at the end of `bytes` that lossy decoding holds
/// back for the next read; empty where `bytes` ends on a boundary.
pub open spec fn lossy_rest(bytes: Seq<u8>) -> Seq<u8>
    decreases bytes.len(),
{
    if bytes.len() == 0 {
        bytes
    } else {
        match head(bytes) {
            Head::Scalar { len } => lossy_rest(bytes.skip(len)),
            Head::Incomplete => bytes,
            Head::Invalid { len } => lossy_rest(bytes.skip(len)),
        }
    }
}

proof fn lemma_one_byte(b0: u8)
    by (bit_vector)
    ensures
        b0 <= 0x7F ==> codepoint_width_1(b0) == b0 as u32 && has_width_1_encoding(
            codepoint_width_1(b0),
        ),
{
}

proof fn lemma_two_bytes(b0: u8, b1: u8)
    by (bit_vector)
    ensures
        (is_leading_byte_width_2(b0) && is_continuation_byte(b1) && 0x80 <= codepoint_width_2(
            b0,
            b1,
        )) <==> (0xC2 <= b0 <= 0xDF && 0x80 <= b1 <= 0xBF),
        is_leading_byte_width_2(b0) && is_continuation_byte(b1) ==> codepoint_width_2(b0, b1)
            <= 0x7FF,
{
}

proof fn lemma_three_bytes(b0: u8, b1: u8, b2: u8)
    by (bit_vector)
    requires
        is_continuation_byte(b2),
    ensures
        (is_leading_byte_width_3(b0) && is_continuation_byte(b1) && 0x800 <= codepoint_width_3(
            b0,
            b1,
            b2,
        ) && !(0xD800 <= codepoint_width_3(b0, b1, b2) <= 0xDFFF)) <==> (0xE0 <= b0 <= 0xEF && (
        if b0 == 0xE0 {
            0xA0 <= b1 <= 0xBF
        } else if b0 == 0xED {
            0x80 <= b1 <= 0x9F
        } else {
            0x80 <= b1 <= 0xBF
        })),
        is_leading_byte_width_3(b0) && is_continuation_byte(b1) ==> codepoint_width_3(b0, b1, b2)
            <= 0xFFFF,
{
}

proof fn lemma_four_bytes(b0: u8, b1: u8, b2: u8, b3: u8)
    by (bit_vector)
    requires
        is_continuation_byte(b2),
        is_continuation_byte(b3),
    ensures
        (is_leading_byte_width_4(b0) && is_continuation_byte(b1) && 0x10000 <= codepoint_width_4(
            b0,
            b1,
            b2,
            b3,
        ) <= 0x10FFFF) <==> (0xF0 <= b0 <= 0xF4 && (if b0 == 0xF0 {
            0x90 <= b1 <= 0xBF
        } else if b0 == 0xF4 {
            0x80 <= b1 <= 0x8F
        } else {
            0x80 <= b1 <= 0xBF
        })),
{
}

/// The head of a byte sequence is a complete character exactly where vstd's
/// definition of UTF-8 finds a well-formed first scalar, of the same length.
pub proof fn lemma_head_scalar(bytes: Seq<u8>)
    requires
        bytes.len() > 0,
    ensures
        valid_first_scalar(bytes) <==> head(bytes) is Scalar,
        valid_first_scalar(bytes) ==> head(bytes) == (Head::Scalar {
            len: length_of_first_scalar(bytes),
        }) && is_scalar(decode_first_scalar(bytes)) && 1 <= length_of_first_scalar(bytes)
            <= bytes.len(),
{
    let b0 = bytes[0];
    lemma_one_byte(b0);
    if bytes.len() >= 2 {
        lemma_two_bytes(b0, bytes[1]);
        if bytes.len() >= 3 && is_continuation_byte(bytes[2]) {
            lemma_three_bytes(b0, bytes[1], bytes[2]);
            if bytes.len() >= 4 && is_continuation_byte(bytes[3]) {
                lemma_four_bytes(b0, bytes[1], bytes[2], bytes[3]);
            }
        }
    }
}

/// What `scan_head` found at the front of the bytes it was given.
pub enum Utf8Head {
    Scalar { len: usize, ch: char },
    Incomplete,
    Invalid { len: usize },
}

fn second_fits(b0: u8, b1: u8) -> (r: bool)
    ensures
        r == second_byte_fits(b0, b1),
{
    if b0 == 0xE0 {
        0xA0 <= b1 && b1 <= 0xBF
    } else if b0 == 0xED {
        0x80 <= b1 && b1 <= 0x9F
    } else if b0 == 0xF0 {
        0x90 <= b1 && b1 <= 0xBF
    } else if b0 == 0xF4 {
        0x80 <= b1 && b1 <= 0x8F
    } else {
        0x80 <= b1 && b1 <= 0xBF
    }
}

fn is_continuation(b: u8) -> (r: bool)
    ensures
        r == is_continuation_byte(b),
{
    0x80 <= b && b <= 0xBF
}

/// Classifies what stands at index `i` of `bytes`.
pub fn scan_head(bytes: &[u8], i: usize) -> (r: Utf8Head)
    requires
        i < bytes.len(),
    ensures
        match r {
            Utf8Head::Scalar { len, ch } => head(bytes@.skip(i as int)) == (Head::Scalar {
                len: len as int,
            }) && ch == decode_first_scalar(bytes@.skip(i as int)) as char && 1 <= len && i + len
                <= bytes.len(),
            Utf8Head::Incomplete => head(bytes@.skip(i as int)) == Head::Incomplete,
            Utf8Head::Invalid { len } => head(bytes@.skip(i as int)) == (Head::Invalid {
                len: len as int,
            }) && 1 <= len && i + len <= bytes.len(),
        },
{
    let ghost rest = bytes@.skip(i as int);
    proof {
        lemma_head_scalar(rest);
    }
    let n = bytes.len();
    let b0 = bytes[i];
    if b0 <= 0x7F {
        proof {
            lemma_one_byte(b0);
        }
        let ch = char::from_u32(b0 as u32).unwrap();
        return Utf8Head::Scalar { len: 1, ch };
    }
    if b0 < 0xC2 || b0 > 0xF4 {
        return Utf8Head::Invalid { len: 1 };
    }
    if n - i < 2 {
        return Utf8Head::Incomplete;
    }
    let b1 = bytes[i + 1];
    if !second_fits(b0, b1) {
        return Utf8Head::Invalid { len: 1 };
    }
    if b0 <= 0xDF {
        let cp: u32 = (((b0 & 0x1F) as u32) << 6) | ((b1 & 0x3F) as u32);
        let ch = char::from_u32(cp).unwrap();
        return Utf8Head::Scalar { len: 2, ch };
    }
    if n - i < 3 {
        return Utf8Head::Incomplete;
    }
    let b2 = bytes[i + 2];
    if !is_continuation(b2) {
        return Utf8Head::Invalid { len: 2 };
    }
    if b0 <= 0xEF {
        let cp: u32 = (((b0 & 0x0F) as u32) << 12) | (((b1 & 0x3F) as u32) << 6) | ((b2
            & 0x3F) as u32);
        let ch = char::from_u32(cp).unwrap();
        return Utf8Head::Scalar { len: 3, ch };
    }
    if n - i < 4 {
        return Utf8Head::Incomplete;
    }
    let b3 = bytes[i + 3];
    if !is_continuation(b3) {
        return Utf8Head::Invalid { len: 3 };
    }
    let cp: u32 = (((b0 & 0x07) as u32) << 18) | (((b1 & 0x3F) as u32) << 12) | (((b2
        & 0x3F) as u32) << 6) | ((b3 & 0x3F) as u32);
    let ch = char::from_u32(cp).unwrap();
    Utf8Head::Scalar { len: 4, ch }
}

/// Takes out of `buffer` everything that can be decoded now and returns it as
/// text; an incomplete character at the end stays in `buffer` for the bytes
/// of the next read to complete it. Bytes that cannot begin any character
/// come out as U+FFFD.
pub fn drain_utf8_bytes(buffer: &mut Vec<u8>) -> (output: String)
    ensures
        output@ == lossy_text(old(buffer)@),
        final(buffer)@ == lossy_rest(old(buffer)@),
{
    let mut output = String::new();
    let n = buffer.len();
    let mut i: usize = 0;
    assert(buffer@.skip(0) =~= buffer@);
    while i < n
        invariant_except_break
            lossy_rest(old(buffer)@) == lossy_rest(buffer@.skip(i as int)),
        invariant
            i <= n,
            n == buffer.len(),
            buffer@ == old(buffer)@,
            lossy_text(old(buffer)@) == output@ + lossy_text(buffer@.skip(i as int)),
        ensures
            lossy_rest(old(buffer)@) == buffer@.skip(i as int),
            lossy_text(buffer@.skip(i as int)).len() == 0,
        decreases n - i,
    {
        let ghost rest = buffer@.skip(i as int);
        match scan_head(buffer.as_slice(), i) {
            Utf8Head::Scalar { len, ch } => {
                output.push(ch);
                i += len;
                assert(rest.skip(len as int) =~= buffer@.skip(i as int));
                assert(output@ + lossy_text(buffer@.skip(i as int)) =~= lossy_text(
                    old(buffer)@,
                ));
            },
            Utf8Head::Incomplete => {
                break ;
            },
            Utf8Head::Invalid { len } => {
                output.push('\u{FFFD}');
                i += len;
                assert(rest.skip(len as int) =~= buffer@.skip(i as int));
                assert(output@ + lossy_text(buffer@.skip(i as int)) =~= lossy_text(
                    old(buffer)@,
                ));
            },
        }
    }
    assert(output@ =~= lossy_text(old(buffer)@));
    let tail = buffer.split_off(i);
    *buffer = tail;
    output
}

/// Decoding more bytes after `b` gives the text of `b`, followed by the text
/// of what `b` held back together with the new bytes.
pub proof fn lemma_lossy_append(b: Seq<u8>, e: Seq<u8>)
    ensures
        lossy_text(b + e) == lossy_text(b) + lossy_text(lossy_rest(b) + e),
        lossy_rest(b + e) == lossy_rest(lossy_rest(b) + e),
    decreases b.len(),
{
    if b.len() == 0 {
        assert(lossy_text(b) + lossy_text(lossy_rest(b) + e) =~= lossy_text(b + e));
    } else {
        match head(b) {
            Head::Incomplete => {
                assert(lossy_text(b) + lossy_text(lossy_rest(b) + e) =~= lossy_text(b + e));
            },
            _ => {
                let len = head_len(b);
                assert(head(b + e) == head(b));
                if head(b) is Scalar {
                    assert(decode_first_scalar(b + e) == decode_first_scalar(b));
                }
                assert((b + e).skip(len) =~= b.skip(len) + e);
                lemma_lossy_append(b.skip(len), e);
                assert(lossy_text(b + e) =~= lossy_text(b) + lossy_text(lossy_rest(b) + e));
            },
        }
    }
}

/// What decoding holds back decodes to nothing and is held back again.
pub proof fn lemma_rest_is_held(b: Seq<u8>)
    ensures
        lossy_text(lossy_rest(b)).len() == 0,
        lossy_rest(lossy_rest(b)) == lossy_rest(b),
        lossy_rest(b).len() <= 3,
    decreases b.len(),
{
    if b.len() > 0 {
        match head(b) {
            Head::Incomplete => {},
            _ => {
                lemma_rest_is_held(b.skip(head_len(b)));
            },
        }
    }
}

/// On well-formed UTF-8, lossy decoding is plain decoding: every character
/// comes out, none is replaced and nothing is held back.
pub proof fn lemma_lossy_valid(b: Seq<u8>)
    requires
        valid_utf8(b),
    ensures
        lossy_text(b) == decode_utf8(b),
        lossy_rest(b).len() == 0,
    decreases b.len(),
{
    if b.len() > 0 {
        lemma_head_scalar(b);
        let len = length_of_first_scalar(b);
        assert(pop_first_scalar(b) =~= b.skip(len));
        lemma_lossy_valid(b.skip(len));
    }
}

/// The bytes of all chunks, in order.
pub open spec fn joined(chunks: Seq<Seq<u8>>) -> Seq<u8>
    decreases chunks.len(),
{
    if chunks.len() == 0 {
        seq![]
    } else {
        chunks[0] + joined(chunks.drop_first())
    }
}

/// The text that comes out, and the bytes still held back, after the chunks
/// went through `drain_utf8_bytes` one by one, each appended to what the
/// call before it held back; `carry` is what was held back at the start.
pub open spec fn reassembled(carry: Seq<u8>, chunks: Seq<Seq<u8>>) -> (Seq<char>, Seq<u8>)
    decreases chunks.len(),
{
    if chunks.len() == 0 {
        (seq![], carry)
    } else {
        let buffer = carry + chunks[0];
        let later = reassembled(lossy_rest(buffer), chunks.drop_first());
        (lossy_text(buffer) + later.0, later.1)
    }
}

/// Reading in chunks gives what one read of all the bytes would have given.
pub proof fn lemma_reassembled_is_lossy(carry: Seq<u8>, chunks: Seq<Seq<u8>>)
    requires
        lossy_text(carry).len() == 0,
        lossy_rest(carry) == carry,
    ensures
        reassembled(carry, chunks).0 == lossy_text(carry + joined(chunks)),
        reassembled(carry, chunks).1 == lossy_rest(carry + joined(chunks)),
    decreases chunks.len(),
{
    if chunks.len() == 0 {
        assert(carry + joined(chunks) =~= carry);
        assert(reassembled(carry, chunks).0 =~= lossy_text(carry));
    } else {
        let buffer = carry + chunks[0];
        let later = joined(chunks.drop_first());
        lemma_rest_is_held(buffer);
        lemma_reassembled_is_lossy(lossy_rest(buffer), chunks.drop_first());
        lemma_lossy_append(buffer, later);
        assert(carry + joined(chunks) =~= buffer + later);
    }
}

/// However a well-formed UTF-8 string is cut into chunks, at character
/// boundaries or inside characters, reassembling the chunks gives back
/// exactly the characters of the string, none of them replaced, and leaves
/// no byte behind.
pub proof fn lemma_chunked_utf8_reassembles(chunks: Seq<Seq<u8>>)
    requires
        valid_utf8(joined(chunks)),
    ensures
        reassembled(seq![], chunks).0 == decode_utf8(joined(chunks)),
        reassembled(seq![], chunks).1.len() == 0,
{
    let empty = Seq::<u8>::empty();
    lemma_reassembled_is_lossy(empty, chunks);
    assert(empty + joined(chunks) =~= joined(chunks));
    lemma_lossy_valid(joined(chunks));
}

/// The same, said of a string: the chunks are any cutting of its bytes.
pub proof fn lemma_chunked_string_reassembles(text: Seq<char>, chunks: Seq<Seq<u8>>)
    requires
        joined(chunks) == encode_utf8(text),
    ensures
        reassembled(seq![], chunks) == (text, Seq::<u8>::empty()),
{
    encode_utf8_valid_utf8(text);
    encode_utf8_decode_utf8(text);
    lemma_chunked_utf8_reassembles(chunks);
    assert(reassembled(seq![], chunks).1 =~= Seq::<u8>::empty());
}

pub open spec fn is_octal(b: u8) -> bool {
    0x30 <= b <= 0x37
}

pub fn is_octal_digit(value: u8) -> (r: bool)
    ensures
        r == is_octal(value),
{
    value >= 0x30 && value <= 0x37
}

/// The byte that the escape with the digits `d1 d2 d3` denotes. Three octal
/// digits reach 511; of a value above 255 the low eight bits are kept.
pub open spec fn octal_value(d1: u8, d2: u8, d3: u8) -> u8 {
    (((d1 - 0x30) * 64 + (d2 - 0x30) * 8 + (d3 - 0x30)) % 256) as u8
}

/// Whether a backslash followed by three octal digits stands at index `i`.
pub open spec fn escape_at(bytes: Seq<u8>, i: int) -> bool {
    &&& 0 <= i
    &&& i + 3 < bytes.len()
    &&& bytes[i] == 0x5C
    &&& is_octal(bytes[i + 1])
    &&& is_octal(bytes[i + 2])
    &&& is_octal(bytes[i + 3])
}

/// `bytes[i..]` with every escape replaced by the byte it denotes.
pub open spec fn unescaped_from(bytes: Seq<u8>, i: int) -> Seq<u8>
    decreases bytes.len() - i,
{
    if i < 0 || i >= bytes.len() {
        seq![]
    } else if escape_at(bytes, i) {
        seq![octal_value(bytes[i + 1], bytes[i + 2], bytes[i + 3])] + unescaped_from(
            bytes,
            i + 4,
        )
    } else {
        seq![bytes[i]] + unescaped_from(bytes, i + 1)
    }
}

pub open spec fn unescaped(bytes: Seq<u8>) -> Seq<u8> {
    unescaped_from(bytes, 0)
}

/// The text of a pane-output payload: escapes undone, then decoded.
pub open spec fn decoded_output(value: Seq<char>) -> Seq<char> {
    lossy_text(unescaped(encode_utf8(value)))
}

proof fn lemma_unescaped_tail(a: Seq<u8>, b: Seq<u8>, k: int)
    requires
        0 <= k <= b.len(),
    ensures
        unescaped_from(a + b, a.len() + k) == unescaped_from(b, k),
    decreases b.len() - k,
{
    let w = a + b;
    if k < b.len() {
        assert(forall|j: int| 0 <= j < b.len() ==> w[a.len() + j] == b[j]);
        assert(escape_at(w, a.len() + k) == escape_at(b, k));
        if escape_at(b, k) {
            lemma_unescaped_tail(a, b, k + 4);
        } else {
            lemma_unescaped_tail(a, b, k + 1);
        }
    }
}

proof fn lemma_unescaped_before_escape(p: Seq<u8>, t: Seq<u8>, i: int)
    requires
        0 <= i <= p.len(),
        t.len() > 0,
        !is_octal(t[0]),
    ensures
        unescaped_from(p + t, i) == unescaped_from(p, i) + unescaped_from(t, 0),
    decreases p.len() - i,
{
    let w = p + t;
    if i == p.len() {
        lemma_unescaped_tail(p, t, 0);
        assert(unescaped_from(p, i) + unescaped_from(t, 0) =~= unescaped_from(t, 0));
    } else {
        assert(forall|j: int| 0 <= j < p.len() ==> w[j] == p[j]);
        assert(w[p.len() as int] == t[0]);
        assert(escape_at(w, i) == escape_at(p, i));
        if escape_at(p, i) {
            lemma_unescaped_before_escape(p, t, i + 4);
            assert(unescaped_from(w, i) =~= unescaped_from(p, i) + unescaped_from(t, 0));
        } else {
            lemma_unescaped_before_escape(p, t, i + 1);
            assert(unescaped_from(w, i) =~= unescaped_from(p, i) + unescaped_from(t, 0));
        }
    }
}

/// Wherever a backslash with three octal digits stands in a payload, and
/// whatever stands around it, undoing the escapes puts in its place the one
/// byte that the digits denote: for digits up to `377` the number they spell.
pub proof fn lemma_escape_denotes_byte(
    before: Seq<u8>,
    d1: u8,
    d2: u8,
    d3: u8,
    after: Seq<u8>,
)
    requires
        is_octal(d1),
        is_octal(d2),
        is_octal(d3),
    ensures
        unescaped(before + seq![0x5Cu8, d1, d2, d3] + after) == unescaped(before) + seq![
            octal_value(d1, d2, d3),
        ] + unescaped(after),
        d1 <= 0x33 ==> octal_value(d1, d2, d3) == (d1 - 0x30) * 64 + (d2 - 0x30) * 8 + (d3
            - 0x30),
{
    let esc = seq![0x5Cu8, d1, d2, d3];
    let t = esc + after;
    assert(before + esc + after =~= before + t);
    lemma_unescaped_before_escape(before, t, 0);
    assert(escape_at(t, 0));
    lemma_unescaped_tail(esc, after, 0);
    assert(unescaped_from(t, 0) =~= seq![octal_value(d1, d2, d3)] + unescaped_from(after, 0));
    assert(unescaped(before + t) =~= unescaped(before) + seq![octal_value(d1, d2, d3)]
        + unescaped(after));
}

/// Undoes the backslash-octal escaping of a pane-output payload and decodes
/// the bytes that result.
pub fn decode_tmux_output(value: &str) -> (out: String)
    ensures
        out@ == decoded_output(value@),
{
    let bytes = value.as_bytes();
    let n = bytes.len();
    let mut out: Vec<u8> = Vec::new();
    let mut i: usize = 0;
    while i < n
        invariant
            i <= n,
            n == bytes.len(),
            unescaped(bytes@) == out@ + unescaped_from(bytes@, i as int),
        decreases n - i,
    {
        if bytes[i] == 0x5C && n - i > 3 {
            let b1 = bytes[i + 1];
            let b2 = bytes[i + 2];
            let b3 = bytes[i + 3];
            if is_octal_digit(b1) && is_octal_digit(b2) && is_octal_digit(b3) {
                let wide: u32 = (b1 - 0x30) as u32 * 64 + (b2 - 0x30) as u32 * 8 + (b3
                    - 0x30) as u32;
                let value: u8 = (wide % 256) as u8;
                out.push(value);
                i += 4;
                assert(out@ + unescaped_from(bytes@, i as int) =~= unescaped(bytes@));
                continue ;
            }
        }
        out.push(bytes[i]);
        i += 1;
        assert(out@ + unescaped_from(bytes@, i as int) =~= unescaped(bytes@));
    }
    assert(out@ =~= unescaped(bytes@));
    drain_utf8_bytes(&mut out)
}

/// The text of bytes that are well-formed UTF-8; nothing of others.
pub fn string_from_utf8(bytes: Vec<u8>) -> (r: Option<String>)
    ensures
        match r {
            Some(s) => valid_utf8(bytes@) && s@ == decode_utf8(bytes@),
            None => !valid_utf8(bytes@),
        },
{
    let mut text = String::new();
    let n = bytes.len();
    let mut i: usize = 0;
    assert(bytes@.subrange(0, 0) =~= Seq::<u8>::empty());
    assert(bytes@.skip(0) =~= bytes@);
    while i < n
        invariant
            i <= n,
            n == bytes.len(),
            valid_utf8(bytes@.subrange(0, i as int)),
            text@ == decode_utf8(bytes@.subrange(0, i as int)),
            valid_utf8(bytes@) <==> valid_utf8(bytes@.skip(i as int)),
            valid_utf8(bytes@) ==> decode_utf8(bytes@) == text@ + decode_utf8(
                bytes@.skip(i as int),
            ),
        decreases n - i,
    {
        let ghost rest = bytes@.skip(i as int);
        proof {
            lemma_head_scalar(rest);
        }
        match scan_head(bytes.as_slice(), i) {
            Utf8Head::Scalar { len, ch } => {
                proof {
                    let done = bytes@.subrange(0, i as int);
                    let one = rest.subrange(0, len as int);
                    assert(pop_first_scalar(rest) =~= rest.skip(len as int));
                    assert(rest.skip(len as int) =~= bytes@.skip(i + len));
                    lemma_scalar_alone(rest);
                    valid_utf8_concat(done, one);
                    assert(done + one =~= bytes@.subrange(0, i + len));
                    lemma_decode_concat(done, one);
                    if valid_utf8(bytes@) {
                        assert(decode_utf8(rest) =~= seq![ch] + decode_utf8(
                            rest.skip(len as int),
                        ));
                    }
                }
                text.push(ch);
                i += len;
                assert(valid_utf8(bytes@) ==> decode_utf8(bytes@) =~= text@ + decode_utf8(
                    bytes@.skip(i as int),
                ));
            },
            _ => {
                return None;
            },
        }
    }
    assert(bytes@.subrange(0, n as int) =~= bytes@);
    Some(text)
}

/// The first character of a byte sequence, taken alone, is well-formed and
/// decodes to that character.
proof fn lemma_scalar_alone(bytes: Seq<u8>)
    requires
        bytes.len() > 0,
        valid_first_scalar(bytes),
    ensures
        valid_utf8(bytes.subrange(0, length_of_first_scalar(bytes))),
        decode_utf8(bytes.subrange(0, length_of_first_scalar(bytes))) == seq![
            decode_first_scalar(bytes) as char,
        ],
{
    let len = length_of_first_scalar(bytes);
    let one = bytes.subrange(0, len);
    lemma_head_scalar(bytes);
    reveal_with_fuel(valid_utf8, 2);
    reveal_with_fuel(decode_utf8, 2);
    assert(one[0] == bytes[0]);
    assert(valid_first_scalar(one));
    assert(length_of_first_scalar(one) == len);
    assert(pop_first_scalar(one) =~= Seq::<u8>::empty());
    assert(decode_first_scalar(one) == decode_first_scalar(bytes));
    assert(valid_utf8(pop_first_scalar(one)));
    assert(valid_utf8(one));
    assert(decode_utf8(pop_first_scalar(one)) =~= Seq::<char>::empty());
    assert(decode_utf8(one) =~= seq![decode_first_scalar(bytes) as char]);
}

/// Decoding two well-formed sequences one after the other decodes their
/// concatenation.
proof fn lemma_decode_concat(a: Seq<u8>, b: Seq<u8>)
    requires
        valid_utf8(a),
        valid_utf8(b),
    ensures
        valid_utf8(a + b),
        decode_utf8(a + b) == decode_utf8(a) + decode_utf8(b),
    decreases a.len(),
{
    valid_utf8_concat(a, b);
    if a.len() == 0 {
        assert(a + b =~= b);
        assert(decode_utf8(a) + decode_utf8(b) =~= decode_utf8(b));
    } else {
        lemma_head_scalar(a);
        let len = length_of_first_scalar(a);
        assert(pop_first_scalar(a + b) =~= pop_first_scalar(a) + b);
        assert(decode_first_scalar(a + b) == decode_first_scalar(a));
        lemma_decode_concat(pop_first_scalar(a), b);
        assert(decode_utf8(a + b) =~= decode_utf8(a) + decode_utf8(b));
    }
}

} // verus!
