//! One terminal cell and its SGR (Select Graphic Rendition) encoding.
use vstd::prelude::*;
use crate::text::{decimal, push_char, push_decimal};

verus! {

/// An RGBA colour, one byte per channel. Alpha 0 means "no colour escape".
pub type Rgba = (u8, u8, u8, u8);

/// The visual state of one character position.
pub struct Cell {
    pub char: String,
    pub fg: Rgba,
    pub bg: Rgba,
    pub bold: bool,
    pub italic: bool,
    pub underline: bool,
}

/// What a cell is, as a mathematical value.
pub struct CellView {
    pub glyph: Seq<char>,
    pub fg: Rgba,
    pub bg: Rgba,
    pub bold: bool,
    pub italic: bool,
    pub underline: bool,
}

impl View for Cell {
    type V = CellView;

    open spec fn view(&self) -> CellView {
        CellView {
            glyph: self.char@,
            fg: self.fg,
            bg: self.bg,
            bold: self.bold,
            italic: self.italic,
            underline: self.underline,
        }
    }
}

pub open spec fn white() -> Rgba {
    (255u8, 255u8, 255u8, 255u8)
}

pub open spec fn transparent() -> Rgba {
    (0u8, 0u8, 0u8, 0u8)
}

/// A space glyph with the given background and a white foreground, no style flags.
pub open spec fn blank_cell(bg: Rgba) -> CellView {
    CellView { glyph: seq![' '], fg: white(), bg, bold: false, italic: false, underline: false }
}

/// The default cell: a space, opaque white on transparent, no style flags.
pub open spec fn default_cell() -> CellView {
    blank_cell(transparent())
}

impl Cell {
    pub fn new() -> (r: Cell)
        ensures
            r@ == default_cell(),
    {
        Cell::blank((0, 0, 0, 0))
    }

    /// A space on the given background, white foreground, no style flags.
    pub fn blank(bg: Rgba) -> (r: Cell)
        ensures
            r@ == blank_cell(bg),
    {
        let mut s = String::new();
        push_char(&mut s, ' ');
        assert(s@ =~= seq![' ']);
        Cell { char: s, fg: (255, 255, 255, 255), bg, bold: false, italic: false, underline: false }
    }
}

impl Clone for Cell {
    fn clone(&self) -> (r: Cell)
        ensures
            r@ == self@,
    {
        Cell {
            char: self.char.clone(),
            fg: self.fg,
            bg: self.bg,
            bold: self.bold,
            italic: self.italic,
            underline: self.underline,
        }
    }
}

/// Two colours are the same on all four channels.
pub fn same_rgba(a: Rgba, b: Rgba) -> (r: bool)
    ensures
        r == (a == b),
{
    a.0 == b.0 && a.1 == b.1 && a.2 == b.2 && a.3 == b.3
}

/// Structural equality of two cells, used by the buffer diff.
pub fn cell_eq(a: &Cell, b: &Cell) -> (r: bool)
    ensures
        r == (a@ == b@),
{
    a.char == b.char && same_rgba(a.fg, b.fg) && same_rgba(a.bg, b.bg) && a.bold == b.bold
        && a.italic == b.italic && a.underline == b.underline
}

/// `prefix;2;r;g;b`: a 24-bit colour parameter.
pub open spec fn color_param(prefix: Seq<char>, c: Rgba) -> Seq<char> {
    prefix + seq![';', '2', ';'] + decimal(c.0 as nat) + seq![';'] + decimal(c.1 as nat) + seq![';']
        + decimal(c.2 as nat)
}

/// The SGR parameters of a cell, in emission order.
pub open spec fn sgr_params(c: CellView) -> Seq<Seq<char>> {
    let p0: Seq<Seq<char>> = Seq::empty();
    let p1 = if c.bold { p0.push(seq!['1']) } else { p0 };
    let p2 = if c.italic { p1.push(seq!['3']) } else { p1 };
    let p3 = if c.underline { p2.push(seq!['4']) } else { p2 };
    let p4 = if c.fg.3 > 0 { p3.push(color_param(seq!['3', '8'], c.fg)) } else { p3 };
    if c.bg.3 > 0 { p4.push(color_param(seq!['4', '8'], c.bg)) } else { p4 }
}

/// Parameters joined with `;`.
pub open spec fn join_params(ps: Seq<Seq<char>>) -> Seq<char>
    decreases ps.len(),
{
    if ps.len() == 0 {
        Seq::empty()
    } else if ps.len() == 1 {
        ps[0]
    } else {
        join_params(ps.drop_last()) + seq![';'] + ps.last()
    }
}

/// `ESC[0m`: reset all attributes.
pub open spec fn sgr_reset() -> Seq<char> {
    seq!['\x1b', '[', '0', 'm']
}

/// The SGR sequence for a cell: its parameters in `ESC[...m`, or a reset when it has none.
pub open spec fn sgr_of(c: CellView) -> Seq<char> {
    let ps = sgr_params(c);
    if ps.len() == 0 {
        sgr_reset()
    } else {
        seq!['\x1b', '['] + join_params(ps) + seq!['m']
    }
}

proof fn lemma_join_push(ps: Seq<Seq<char>>, p: Seq<char>)
    ensures
        join_params(ps.push(p)) == if ps.len() == 0 {
            p
        } else {
            join_params(ps) + seq![';'] + p
        },
{
    assert(ps.push(p).drop_last() =~= ps);
    if ps.len() == 0 {
        assert(ps.push(p)[0] == p);
    }
}

/// Appends `;` when parameters have already been written.
fn push_separator(body: &mut String, n: usize)
    ensures
        n == 0 ==> final(body)@ == old(body)@,
        n > 0 ==> final(body)@ == old(body)@ + seq![';'],
{
    if n > 0 {
        push_char(body, ';');
    }
    assert(n == 0 ==> final(body)@ =~= old(body)@);
}

fn push_color_param(out: &mut String, tens: char, c: Rgba)
    ensures
        final(out)@ == old(out)@ + color_param(seq![tens, '8'], c),
{
    push_char(out, tens);
    push_char(out, '8');
    push_char(out, ';');
    push_char(out, '2');
    push_char(out, ';');
    push_decimal(out, c.0 as u64);
    push_char(out, ';');
    push_decimal(out, c.1 as u64);
    push_char(out, ';');
    push_decimal(out, c.2 as u64);
    assert(final(out)@ =~= old(out)@ + color_param(seq![tens, '8'], c));
}

/// Appends the SGR sequence for `cell` to `out`.
#[verifier::rlimit(40)]
pub fn cell_to_ansi_sgr(cell: &Cell, out: &mut String)
    ensures
        final(out)@ == old(out)@ + sgr_of(cell@),
{
    let mut body = String::new();
    let mut n: usize = 0;
    let ghost mut ps: Seq<Seq<char>> = Seq::empty();
    let ghost c = cell@;
    if cell.bold {
        push_separator(&mut body, n);
        push_char(&mut body, '1');
        proof { lemma_join_push(ps, seq!['1']); ps = ps.push(seq!['1']); }
        n = n + 1;
        assert(body@ =~= join_params(ps));
    }
    assert(body@ =~= join_params(ps));
    if cell.italic {
        push_separator(&mut body, n);
        push_char(&mut body, '3');
        proof { lemma_join_push(ps, seq!['3']); ps = ps.push(seq!['3']); }
        n = n + 1;
        assert(body@ =~= join_params(ps));
    }
    if cell.underline {
        push_separator(&mut body, n);
        push_char(&mut body, '4');
        proof { lemma_join_push(ps, seq!['4']); ps = ps.push(seq!['4']); }
        n = n + 1;
        assert(body@ =~= join_params(ps));
    }
    if cell.fg.3 > 0 {
        push_separator(&mut body, n);
        push_color_param(&mut body, '3', cell.fg);
        proof {
            lemma_join_push(ps, color_param(seq!['3', '8'], c.fg));
            ps = ps.push(color_param(seq!['3', '8'], c.fg));
        }
        n = n + 1;
        assert(body@ =~= join_params(ps));
    }
    if cell.bg.3 > 0 {
        push_separator(&mut body, n);
        push_color_param(&mut body, '4', cell.bg);
        proof {
            lemma_join_push(ps, color_param(seq!['4', '8'], c.bg));
            ps = ps.push(color_param(seq!['4', '8'], c.bg));
        }
        n = n + 1;
        assert(body@ =~= join_params(ps));
    }
    assert(ps =~= sgr_params(c));
    if n == 0 {
        out.append("\x1b[0m");
        proof { reveal_strlit("\x1b[0m"); }
        assert(final(out)@ =~= old(out)@ + sgr_of(c));
    } else {
        push_char(out, '\x1b');
        push_char(out, '[');
        out.append(body.as_str());
        push_char(out, 'm');
        assert(final(out)@ =~= old(out)@ + sgr_of(c));
    }
}

} // verus!
