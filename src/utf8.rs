//! Byte-level text helpers: ASCII checks, line breaks, code point decoding and display
//! width.
use vstd::prelude::*;
use unicode_width::UnicodeWidthChar;
use vstd::utf8::{length_of_first_codepoint, pop_first_scalar, valid_utf8};

verus! {

/// How grapheme width is measured. Only the per-code-point (wcwidth-style) measure is
/// implemented; the others are accepted and measured the same way.
#[derive(Clone, Copy, Debug, PartialEq, Eq, Structural)]
pub enum WidthMethod {
    Wcwidth,
    Unicode,
    NoZwj,
}

/// The kind of a line break.
#[derive(Clone, Copy, Debug, PartialEq, Eq, Structural)]
pub enum LineBreakKind {
    Lf,
    Cr,
    Crlf,
}

/// A line break ending at byte `pos` (for `Crlf`, the position of the `\n`).
#[derive(Clone, Copy, Debug, PartialEq, Eq, Structural)]
pub struct LineBreak {
    pub pos: usize,
    pub kind: LineBreakKind,
}

/// Every byte is printable ASCII (32 to 126) and there is at least one.
pub open spec fn printable_ascii(text: Seq<u8>) -> bool {
    text.len() > 0 && forall|i: int| 0 <= i < text.len() ==> 32 <= #[trigger] text[i] <= 126
}

/// Whether `text` is non-empty and holds only printable ASCII (32 to 126).
pub fn is_ascii_only(text: &[u8]) -> (r: bool)
    ensures
        r == printable_ascii(text@),
{
    if text.len() == 0 {
        return false;
    }
    let n = text.len();
    for i in 0..n
        invariant
            n == text@.len(),
            forall|j: int| 0 <= j < i ==> 32 <= #[trigger] text@[j] <= 126,
    {
        if text[i] < 32 || text[i] > 126 {
            return false;
        }
    }
    true
}

/// The line breaks of `text` from byte `pos` on: `\r\n` is one break at the `\n`, a lone
/// `\r` or `\n` is a break at itself.
pub open spec fn breaks_from(text: Seq<u8>, pos: int) -> Seq<LineBreak>
    decreases text.len() - pos,
{
    if pos < 0 || pos >= text.len() {
        Seq::empty()
    } else if text[pos] == 10 {
        seq![LineBreak { pos: pos as usize, kind: LineBreakKind::Lf }] + breaks_from(text, pos + 1)
    } else if text[pos] == 13 {
        if pos + 1 < text.len() && text[pos + 1] == 10 {
            seq![LineBreak { pos: (pos + 1) as usize, kind: LineBreakKind::Crlf }] + breaks_from(
                text,
                pos + 2,
            )
        } else {
            seq![LineBreak { pos: pos as usize, kind: LineBreakKind::Cr }] + breaks_from(text, pos + 1)
        }
    } else {
        breaks_from(text, pos + 1)
    }
}

/// The line breaks of `text`, in order.
pub fn find_line_breaks(text: &[u8]) -> (r: Vec<LineBreak>)
    ensures
        r@ == breaks_from(text@, 0),
{
    let mut result: Vec<LineBreak> = Vec::new();
    let mut pos: usize = 0;
    let n = text.len();
    while pos < n
        invariant
            n == text@.len(),
            pos <= n,
            breaks_from(text@, 0) == result@ + breaks_from(text@, pos as int),
        decreases n - pos,
    {
        let b = text[pos];
        let ghost before = result@;
        if b == 10 {
            result.push(LineBreak { pos, kind: LineBreakKind::Lf });
            pos = pos + 1;
        } else if b == 13 {
            if pos + 1 < n && text[pos + 1] == 10 {
                result.push(LineBreak { pos: pos + 1, kind: LineBreakKind::Crlf });
                pos = pos + 2;
            } else {
                result.push(LineBreak { pos, kind: LineBreakKind::Cr });
                pos = pos + 1;
            }
        } else {
            pos = pos + 1;
        }
        assert(breaks_from(text@, 0) =~= result@ + breaks_from(text@, pos as int));
    }
    assert(breaks_from(text@, pos as int) =~= Seq::empty());
    assert(result@ =~= result@ + Seq::<LineBreak>::empty());
    result
}

/// The code point and byte length decoded at `pos`, trusting the lead byte: one byte below
/// 0x80, two below 0xE0, three below 0xF0, four otherwise, with the continuation bytes'
/// low six bits. Out of range, or too few bytes left: U+FFFD with length 1.
pub open spec fn decode_at(text: Seq<u8>, pos: int) -> (u32, u8) {
    if pos < 0 || pos >= text.len() {
        (0xFFFD, 1)
    } else {
        let b0 = text[pos] as int;
        if b0 < 0x80 {
            (b0 as u32, 1)
        } else if b0 < 0xE0 {
            if pos + 1 >= text.len() {
                (0xFFFD, 1)
            } else {
                (((b0 % 32) * 64 + text[pos + 1] % 64) as u32, 2)
            }
        } else if b0 < 0xF0 {
            if pos + 2 >= text.len() {
                (0xFFFD, 1)
            } else {
                (((b0 % 16) * 4096 + (text[pos + 1] % 64) * 64 + text[pos + 2] % 64) as u32, 3)
            }
        } else if pos + 3 >= text.len() {
            (0xFFFD, 1)
        } else {
            (
                ((b0 % 8) * 262144 + (text[pos + 1] % 64) * 4096 + (text[pos + 2] % 64) * 64
                    + text[pos + 3] % 64) as u32,
                4,
            )
        }
    }
}

/// Decodes one code point at `pos`, assuming well-formed UTF-8. Returns the code point and
/// its length in bytes.
pub fn decode_utf8_unchecked(text: &[u8], pos: usize) -> (r: (u32, u8))
    ensures
        r == decode_at(text@, pos as int),
{
    if pos >= text.len() {
        return (0xFFFD, 1);
    }
    let b0 = text[pos] as u32;
    if b0 < 0x80 {
        return (b0, 1);
    }
    if b0 < 0xE0 {
        if text.len() - pos <= 1 {
            return (0xFFFD, 1);
        }
        let cp = (b0 % 32) * 64 + (text[pos + 1] % 64) as u32;
        return (cp, 2);
    }
    if b0 < 0xF0 {
        if text.len() - pos <= 2 {
            return (0xFFFD, 1);
        }
        let cp = (b0 % 16) * 4096 + (text[pos + 1] % 64) as u32 * 64 + (text[pos + 2] % 64) as u32;
        return (cp, 3);
    }
    if text.len() - pos <= 3 {
        return (0xFFFD, 1);
    }
    let cp = (b0 % 8) * 262144 + (text[pos + 1] % 64) as u32 * 4096 + (text[pos + 2] % 64) as u32
        * 64 + (text[pos + 3] % 64) as u32;
    (cp, 4)
}

/// What `unicode_width` reports as the column width of the character with scalar value `cp`.
pub uninterp spec fn scalar_display_width(cp: u32) -> Option<usize>;

/// Relies on unicode_width's `UnicodeWidthChar::width`: the character's column width,
/// `None` for control characters; printable ASCII is one column.
#[verifier::external_body]
fn unicode_char_width(c: char) -> (r: Option<usize>)
    ensures
        r == scalar_display_width(c as u32),
        0x20 <= c as u32 && (c as u32) < 0x7F ==> r == Some(1usize),
        (c as u32) < 0x20 || (0x7F <= c as u32 && (c as u32) < 0xA0) ==> r is None,
{
    c.width()
}

/// A code point is a Unicode scalar value.
pub open spec fn is_scalar_value(cp: u32) -> bool {
    cp < 0xD800 || (0xDFFF < cp && cp <= 0x10FFFF)
}

/// Relies on `char::from_u32`: `Some` exactly for scalar values, holding that code point.
#[verifier::external_body]
fn char_from_u32(cp: u32) -> (r: Option<char>)
    ensures
        r is Some <==> is_scalar_value(cp),
        r is Some ==> r->0 as u32 == cp,
{
    char::from_u32(cp)
}

/// Display width of a code point: `tab_width` for a tab, the character's width where it has
/// one, else 1.
pub open spec fn codepoint_width(cp: u32, tab_width: u8) -> u32 {
    if cp == 9 {
        tab_width as u32
    } else if is_scalar_value(cp) {
        match scalar_display_width(cp) {
            Some(w) => w as u32,
            None => 1,
        }
    } else {
        1
    }
}

fn char_width(cp: u32, tab_width: u8) -> (r: u32)
    ensures
        r == codepoint_width(cp, tab_width),
        0x20 <= cp < 0x7F ==> r == 1,
{
    if cp == 9 {
        return tab_width as u32;
    }
    match char_from_u32(cp) {
        Some(c) => {
            match unicode_char_width(c) {
                Some(w) => w as u32,
                None => 1,
            }
        },
        None => 1,
    }
}

/// Display width of the code point at `byte_offset`; 0 past the end.
pub fn get_width_at(text: &[u8], byte_offset: usize, tab_width: u8, _method: WidthMethod) -> (r: u32)
    ensures
        r == if byte_offset >= text@.len() {
            0
        } else {
            codepoint_width(decode_at(text@, byte_offset as int).0, tab_width)
        },
        byte_offset < text@.len() && 32 <= text@[byte_offset as int] <= 126 ==> r == 1,
{
    if byte_offset >= text.len() {
        return 0;
    }
    let (cp, _len) = decode_utf8_unchecked(text, byte_offset);
    char_width(cp, tab_width)
}

/// Total display width of the code points of `text` from byte `pos` on.
pub open spec fn width_from(text: Seq<u8>, pos: int, tab_width: u8) -> nat
    decreases text.len() - pos,
{
    if pos < 0 || pos >= text.len() {
        0
    } else {
        codepoint_width(decode_at(text, pos).0, tab_width) as nat + width_from(
            text,
            pos + decode_at(text, pos).1 as int,
            tab_width,
        )
    }
}

/// Total display width of `text`, code point by code point, saturating at `u32::MAX`.
pub fn calculate_text_width(text: &[u8], tab_width: u8, _is_ascii_only: bool, method: WidthMethod) -> (r: u32)
    ensures
        r == if width_from(text@, 0, tab_width) > u32::MAX {
            u32::MAX as nat
        } else {
            width_from(text@, 0, tab_width)
        },
        printable_ascii(text@) && text@.len() <= u32::MAX ==> r == text@.len(),
{
    let mut pos: usize = 0;
    let mut total: u32 = 0;
    let n = text.len();
    let ghost mut acc: nat = 0;
    while pos < n
        invariant
            n == text@.len(),
            pos <= n,
            acc + width_from(text@, pos as int, tab_width) == width_from(text@, 0, tab_width),
            total == if acc > u32::MAX { u32::MAX as nat } else { acc },
            printable_ascii(text@) ==> acc == pos,
        decreases n - pos,
    {
        let (cp, len) = decode_utf8_unchecked(text, pos);
        let w = char_width(cp, tab_width);
        proof { acc = acc + w as nat; }
        total = total.saturating_add(w);
        pos = pos + len as usize;
    }
    let _ = method;
    total
}

} // verus!

verus! {

/// On well-formed UTF-8, decoding trusts no byte past the code point: the result is the
/// same with anything appended, it ends inside `a`, and what follows is still well formed.
proof fn lemma_decode_in_prefix(a: Seq<u8>, b: Seq<u8>, pos: int)
    requires
        0 <= pos < a.len(),
        valid_utf8(a.subrange(pos, a.len() as int)),
    ensures
        decode_at(a + b, pos) == decode_at(a, pos),
        pos + decode_at(a, pos).1 <= a.len(),
        valid_utf8(a.subrange(pos + decode_at(a, pos).1, a.len() as int)),
{
    let t = a.subrange(pos, a.len() as int);
    assert(t[0] == a[pos]);
    let k = length_of_first_codepoint(t);
    assert(decode_at(a, pos).1 == k);
    assert(pop_first_scalar(t) =~= a.subrange(pos + k, a.len() as int));
    assert((a + b)[pos] == a[pos]);
    if k >= 2 {
        assert((a + b)[pos + 1] == a[pos + 1]);
    }
    if k >= 3 {
        assert((a + b)[pos + 2] == a[pos + 2]);
    }
    if k >= 4 {
        assert((a + b)[pos + 3] == a[pos + 3]);
    }
}

proof fn lemma_width_shift(a: Seq<u8>, b: Seq<u8>, k: int, tab_width: u8)
    requires
        0 <= k,
    ensures
        width_from(a + b, a.len() + k, tab_width) == width_from(b, k, tab_width),
    decreases b.len() - k,
{
    if k < b.len() {
        let p = a.len() + k;
        assert((a + b)[p] == b[k]);
        if k + 1 < b.len() {
            assert((a + b)[p + 1] == b[k + 1]);
        }
        if k + 2 < b.len() {
            assert((a + b)[p + 2] == b[k + 2]);
        }
        if k + 3 < b.len() {
            assert((a + b)[p + 3] == b[k + 3]);
        }
        assert(decode_at(a + b, p) == decode_at(b, k));
        lemma_width_shift(a, b, k + decode_at(b, k).1 as int, tab_width);
    }
}

proof fn lemma_width_concat_from(a: Seq<u8>, b: Seq<u8>, pos: int, tab_width: u8)
    requires
        0 <= pos <= a.len(),
        valid_utf8(a.subrange(pos, a.len() as int)),
    ensures
        width_from(a + b, pos, tab_width) == width_from(a, pos, tab_width) + width_from(
            b,
            0,
            tab_width,
        ),
    decreases a.len() - pos,
{
    if pos == a.len() {
        lemma_width_shift(a, b, 0, tab_width);
    } else {
        lemma_decode_in_prefix(a, b, pos);
        lemma_width_concat_from(a, b, pos + decode_at(a, pos).1 as int, tab_width);
    }
}

/// Display width is additive over text split after well-formed UTF-8: the width of
/// `a ++ b` is the width of `a` plus the width of `b`.
pub proof fn lemma_text_width_concat(a: Seq<u8>, b: Seq<u8>, tab_width: u8)
    requires
        valid_utf8(a),
    ensures
        width_from(a + b, 0, tab_width) == width_from(a, 0, tab_width) + width_from(b, 0, tab_width),
{
    assert(a.subrange(0, a.len() as int) =~= a);
    lemma_width_concat_from(a, b, 0, tab_width);
}

} // verus!
