//! The frame buffer: a width × height grid of cells, its drawing primitives and its
//! diff against another frame as escape sequences.
use vstd::prelude::*;
use crate::cell::{
    blank_cell, cell_eq, cell_to_ansi_sgr, default_cell, same_rgba, sgr_of, Cell, CellView, Rgba,
};
use crate::error::TuiError;
use crate::grid::{lemma_grid_index, lemma_grid_same, lemma_grid_split};
use crate::text::{chars_of, decimal, push_char, push_decimal};

verus! {

/// A frame buffer as a mathematical value: its dimensions and its cells in row-major order.
pub struct BufferView {
    pub width: nat,
    pub height: nat,
    pub cells: Seq<CellView>,
}

impl BufferView {
    /// The cell at column `x`, row `y`.
    pub open spec fn at(self, x: int, y: int) -> CellView {
        self.cells[y * self.width + x]
    }

    pub open spec fn wf(self) -> bool {
        self.cells.len() == self.width * self.height
    }
}

/// A dense row-major grid of cells.
pub struct Buffer {
    width: usize,
    height: usize,
    cells: Vec<Cell>,
}

/// The cell at `(x, y)` after resizing a buffer that was `old`: kept where it lay inside
/// the old grid, the default cell elsewhere.
pub open spec fn resized_at(old: BufferView, x: int, y: int) -> CellView {
    if x < old.width && y < old.height {
        old.at(x, y)
    } else {
        default_cell()
    }
}

/// The style last written to the terminal during one diff.
#[derive(Clone, Copy)]
pub struct StyleState {
    pub fg: Option<Rgba>,
    pub bg: Option<Rgba>,
    pub bold: bool,
    pub italic: bool,
    pub underline: bool,
}

/// No style has been written yet.
pub open spec fn initial_style() -> StyleState {
    StyleState { fg: None, bg: None, bold: false, italic: false, underline: false }
}

/// The style that writing cell `c` leaves behind.
pub open spec fn style_of(c: CellView) -> StyleState {
    StyleState {
        fg: Some(c.fg),
        bg: Some(c.bg),
        bold: c.bold,
        italic: c.italic,
        underline: c.underline,
    }
}

/// Whether cell `c` needs an SGR sequence after style `st`.
pub open spec fn style_differs(st: StyleState, c: CellView) -> bool {
    st.fg != Some(c.fg) || st.bg != Some(c.bg) || st.bold != c.bold || st.italic != c.italic
        || st.underline != c.underline
}

/// `ESC[H ESC[2J`: cursor home, then clear the screen.
pub open spec fn clear_home() -> Seq<char> {
    seq!['\x1b', '[', 'H', '\x1b', '[', '2', 'J']
}

/// `ESC[{row};{col}H`: absolute cursor position, 1-based.
pub open spec fn cursor_to(row: nat, col: nat) -> Seq<char> {
    seq!['\x1b', '['] + decimal(row) + seq![';'] + decimal(col) + seq!['H']
}

/// What a changed cell at index `i` of a `width`-wide grid writes after style `st`.
pub open spec fn cell_output(st: StyleState, c: CellView, i: nat, width: nat) -> Seq<char> {
    let pos = cursor_to(i / width + 1, i % width + 1);
    if style_differs(st, c) {
        pos + sgr_of(c) + c.glyph
    } else {
        pos + c.glyph
    }
}

/// The output and the style after the first `k` cells of a row-major diff scan.
pub open spec fn diff_scan(
    next: Seq<CellView>,
    cur: Seq<CellView>,
    width: nat,
    full: bool,
    k: nat,
) -> (Seq<char>, StyleState)
    decreases k,
{
    if k == 0 {
        (if full { clear_home() } else { Seq::empty() }, initial_style())
    } else {
        let prev = diff_scan(next, cur, width, full, (k - 1) as nat);
        let i = (k - 1) as nat;
        let c = next[i as int];
        if !full && c == cur[i as int] {
            prev
        } else {
            (
                prev.0 + cell_output(prev.1, c, i, width),
                if style_differs(prev.1, c) { style_of(c) } else { prev.1 },
            )
        }
    }
}

/// The escape sequences that turn a screen showing `cur` into one showing `next`.
pub open spec fn diff_output(next: BufferView, cur: BufferView, full: bool) -> Seq<char> {
    diff_scan(next.cells, cur.cells, next.width, full, next.cells.len()).0
}

fn style_differs_exec(st: &StyleState, c: &Cell) -> (r: bool)
    ensures
        r == style_differs(*st, c@),
{
    let fg_same = match st.fg {
        Some(f) => same_rgba(f, c.fg),
        None => false,
    };
    let bg_same = match st.bg {
        Some(b) => same_rgba(b, c.bg),
        None => false,
    };
    !fg_same || !bg_same || st.bold != c.bold || st.italic != c.italic || st.underline
        != c.underline
}

/// Writes what a changed cell at index `i` of a `width`-wide grid emits, and updates the style.
fn write_cell(out: &mut String, st: &mut StyleState, cell: &Cell, i: usize, width: usize, height: usize)
    requires
        width > 0,
        i / width < height,
        i % width < width,
    ensures
        final(out)@ == old(out)@ + cell_output(*old(st), cell@, i as nat, width as nat),
        *final(st) == if style_differs(*old(st), cell@) {
            style_of(cell@)
        } else {
            *old(st)
        },
{
    let y = i / width;
    let x = i % width;
    push_char(out, '\x1b');
    push_char(out, '[');
    push_decimal(out, (y + 1) as u64);
    push_char(out, ';');
    push_decimal(out, (x + 1) as u64);
    push_char(out, 'H');
    if style_differs_exec(st, cell) {
        cell_to_ansi_sgr(cell, out);
        *st = StyleState {
            fg: Some(cell.fg),
            bg: Some(cell.bg),
            bold: cell.bold,
            italic: cell.italic,
            underline: cell.underline,
        };
    }
    out.append(cell.char.as_str());
    assert(final(out)@ =~= old(out)@ + cell_output(*old(st), cell@, i as nat, width as nat));
}

impl View for Buffer {
    type V = BufferView;

    closed spec fn view(&self) -> BufferView {
        BufferView {
            width: self.width as nat,
            height: self.height as nat,
            cells: Seq::new(self.cells@.len(), |i: int| self.cells@[i]@),
        }
    }
}

impl Buffer {
    /// A buffer of default cells.
    pub fn new(width: usize, height: usize) -> (r: Buffer)
        requires
            width * height <= usize::MAX,
        ensures
            r@.width == width,
            r@.height == height,
            r@.wf(),
            forall|i: int| 0 <= i < r@.cells.len() ==> r@.cells[i] == default_cell(),
    {
        let n = width * height;
        let mut cells: Vec<Cell> = Vec::new();
        for i in 0..n
            invariant
                cells@.len() == i,
                forall|j: int| 0 <= j < i ==> cells@[j]@ == default_cell(),
        {
            cells.push(Cell::new());
        }
        let r = Buffer { width, height, cells };
        assert(r@.cells.len() == n);
        r
    }

    pub fn get_width(&self) -> (r: usize)
        ensures
            r == self@.width,
    {
        self.width
    }

    pub fn get_height(&self) -> (r: usize)
        ensures
            r == self@.height,
    {
        self.height
    }

    /// Replaces the cell at `(x, y)`.
    pub fn set_cell(&mut self, x: usize, y: usize, cell: Cell) -> (r: Result<(), TuiError>)
        requires
            old(self)@.wf(),
        ensures
            final(self)@.wf(),
            final(self)@.width == old(self)@.width,
            final(self)@.height == old(self)@.height,
            r is Err <==> !(x < old(self)@.width && y < old(self)@.height),
            r is Err ==> r == Err::<(), TuiError>(TuiError::Bounds) && final(self)@ == old(self)@,
            r is Ok ==> final(self)@.cells == old(self)@.cells.update(
                y * old(self)@.width + x,
                cell@,
            ),
    {
        if x < self.width && y < self.height {
            proof { lemma_grid_index(x as int, y as int, self.width as int, self.height as int); }
            let _n = self.cells.len();
            let idx = y * self.width + x;
            self.cells.set(idx, cell);
            proof {
                assert(self@.cells =~= old(self)@.cells.update(y * old(self)@.width + x, cell@));
            }
            Ok(())
        } else {
            Err(TuiError::Bounds)
        }
    }

    /// A copy of the cell at `(x, y)`.
    pub fn get_cell(&self, x: usize, y: usize) -> (r: Result<Cell, TuiError>)
        requires
            self@.wf(),
        ensures
            r is Err <==> !(x < self@.width && y < self@.height),
            r is Err ==> r == Err::<Cell, TuiError>(TuiError::Bounds),
            r is Ok ==> r->Ok_0@ == self@.at(x as int, y as int),
    {
        if x < self.width && y < self.height {
            proof { lemma_grid_index(x as int, y as int, self.width as int, self.height as int); }
            let _n = self.cells.len();
            let idx = y * self.width + x;
            Ok(self.cells[idx].clone())
        } else {
            Err(TuiError::Bounds)
        }
    }

    /// Replaces the cell at a position known to be inside the grid.
    fn set_at(&mut self, x: usize, y: usize, cell: Cell)
        requires
            old(self)@.wf(),
            x < old(self)@.width,
            y < old(self)@.height,
        ensures
            final(self)@.wf(),
            final(self)@.width == old(self)@.width,
            final(self)@.height == old(self)@.height,
            forall|qx: int, qy: int|
                0 <= qx < old(self)@.width && 0 <= qy < old(self)@.height ==> #[trigger] final(self)@.at(qx, qy) == if qx == x && qy == y {
                    cell@
                } else {
                    old(self)@.at(qx, qy)
                },
    {
        proof { lemma_grid_index(x as int, y as int, self.width as int, self.height as int); }
        let _n = self.cells.len();
        let idx = y * self.width + x;
        let ghost c = cell@;
        self.cells.set(idx, cell);
        proof {
            assert forall|qx: int, qy: int|
                0 <= qx < old(self)@.width && 0 <= qy < old(self)@.height implies #[trigger] self@.at(qx, qy) == if qx == x && qy == y {
                    c
                } else {
                    old(self)@.at(qx, qy)
                } by {
                lemma_grid_same(qx, qy, x as int, y as int, self.width as int, self.height as int);
                lemma_grid_index(qx, qy, self.width as int, self.height as int);
            }
        }
    }

    /// Writes one character per cell from `(x, y)` rightwards with foreground `fg`,
    /// stopping silently at the right edge.
    pub fn draw_text(&mut self, text: &str, x: usize, y: usize, fg: Rgba)
        requires
            old(self)@.wf(),
        ensures
            final(self)@.wf(),
            final(self)@.width == old(self)@.width,
            final(self)@.height == old(self)@.height,
            forall|qx: int, qy: int|
                0 <= qx < old(self)@.width && 0 <= qy < old(self)@.height ==> #[trigger] final(self)@.at(qx, qy) == if qy == y && x <= qx < x + text@.len() {
                    CellView { glyph: seq![text@[qx - x]], fg, ..old(self)@.at(qx, qy) }
                } else {
                    old(self)@.at(qx, qy)
                },
    {
        let chars = chars_of(text);
        if y >= self.height || x >= self.width {
            return;
        }
        let room = self.width - x;
        let mut i: usize = 0;
        while i < chars.len() && i < room
            invariant
                self@.wf(),
                self@.width == old(self)@.width,
                self@.height == old(self)@.height,
                chars@ == text@,
                room == self@.width - x,
                y < self@.height,
                i <= chars@.len(),
                i <= room,
                forall|qx: int, qy: int|
                    0 <= qx < old(self)@.width && 0 <= qy < old(self)@.height ==> #[trigger] self@.at(qx, qy) == if qy == y && x <= qx < x + i {
                        CellView { glyph: seq![text@[qx - x]], fg, ..old(self)@.at(qx, qy) }
                    } else {
                        old(self)@.at(qx, qy)
                    },
            decreases room - i,
        {
            let ghost before = self@;
            let _n = self.cells.len();
            proof { lemma_grid_index((x + i) as int, y as int, self.width as int, self.height as int); }
            assert(self@.at((x + i) as int, y as int) == old(self)@.at((x + i) as int, y as int));
            let mut c = self.cells[y * self.width + (x + i)].clone();
            assert(c@ == self@.at((x + i) as int, y as int));
            let mut s = String::new();
            push_char(&mut s, chars[i]);
            assert(s@ =~= seq![text@[i as int]]);
            c.char = s;
            c.fg = fg;
            assert(c@ == CellView { glyph: seq![text@[i as int]], fg, ..old(self)@.at((x + i) as int, y as int) });
            self.set_at(x + i, y, c);
            proof {
                assert forall|qx: int, qy: int|
                    0 <= qx < old(self)@.width && 0 <= qy < old(self)@.height implies #[trigger] self@.at(qx, qy) == if qy == y && x <= qx < x + i + 1 {
                        CellView { glyph: seq![text@[qx - x]], fg, ..old(self)@.at(qx, qy) }
                    } else {
                        old(self)@.at(qx, qy)
                    } by {
                    assert(before.at(qx, qy) == if qy == y && x <= qx < x + i {
                        CellView { glyph: seq![text@[qx - x]], fg, ..old(self)@.at(qx, qy) }
                    } else {
                        old(self)@.at(qx, qy)
                    });
                }
            }
            i = i + 1;
        }
    }

    /// Sets every cell to the default cell.
    pub fn clear(&mut self)
        requires
            old(self)@.wf(),
        ensures
            final(self)@.wf(),
            final(self)@.width == old(self)@.width,
            final(self)@.height == old(self)@.height,
            forall|i: int| 0 <= i < final(self)@.cells.len() ==> final(self)@.cells[i] == default_cell(),
    {
        self.clear_with_bg(0, 0, 0, 0);
    }

    /// Sets every cell to a space with white foreground, background `(r, g, b, a)` and no
    /// style flags.
    pub fn clear_with_bg(&mut self, r: u8, g: u8, b: u8, a: u8)
        requires
            old(self)@.wf(),
        ensures
            final(self)@.wf(),
            final(self)@.width == old(self)@.width,
            final(self)@.height == old(self)@.height,
            forall|i: int|
                0 <= i < final(self)@.cells.len() ==> final(self)@.cells[i] == blank_cell(
                    (r, g, b, a),
                ),
    {
        let n = self.cells.len();
        for i in 0..n
            invariant
                n == self.cells@.len(),
                self@.wf(),
                self@.width == old(self)@.width,
                self@.height == old(self)@.height,
                forall|j: int| 0 <= j < i ==> self.cells@[j]@ == blank_cell((r, g, b, a)),
        {
            self.cells.set(i, Cell::blank((r, g, b, a)));
        }
    }

    /// Sets the cells of the rectangle `[x, x + w) × [y, y + h)` that lie inside the grid;
    /// the part outside is ignored.
    pub fn fill_rect(&mut self, x: usize, y: usize, w: usize, h: usize, cell: Cell) -> (r: Result<(), TuiError>)
        requires
            old(self)@.wf(),
        ensures
            r is Ok,
            final(self)@.wf(),
            final(self)@.width == old(self)@.width,
            final(self)@.height == old(self)@.height,
            forall|qx: int, qy: int|
                0 <= qx < old(self)@.width && 0 <= qy < old(self)@.height ==> #[trigger] final(self)@.at(qx, qy) == if x <= qx < x + w && y <= qy < y + h {
                    cell@
                } else {
                    old(self)@.at(qx, qy)
                },
    {
        let x_end = if x >= self.width {
            x
        } else if w >= self.width - x {
            self.width
        } else {
            x + w
        };
        let y_end = if y >= self.height {
            y
        } else if h >= self.height - y {
            self.height
        } else {
            y + h
        };
        let mut py = y;
        while py < y_end
            invariant
                self@.wf(),
                self@.width == old(self)@.width,
                self@.height == old(self)@.height,
                y <= py <= y_end,
                y_end <= y + h,
                y_end <= self@.height || y_end == y,
                y_end < y + h ==> y_end >= self@.height,
                x <= x_end,
                x_end <= x + w,
                x_end <= self@.width || x_end == x,
                x_end < x + w ==> x_end >= self@.width,
                forall|qx: int, qy: int|
                    0 <= qx < old(self)@.width && 0 <= qy < old(self)@.height ==> #[trigger] self@.at(qx, qy) == if x <= qx < x + w && y <= qy < py {
                        cell@
                    } else {
                        old(self)@.at(qx, qy)
                    },
            decreases y_end - py,
        {
            let mut px = x;
            while px < x_end
                invariant
                    self@.wf(),
                    self@.width == old(self)@.width,
                    self@.height == old(self)@.height,
                    y <= py < y_end,
                    y_end <= y + h,
                    y_end <= self@.height,
                    x <= px <= x_end,
                    x_end <= x + w,
                    x_end <= self@.width || x_end == x,
                    x_end < x + w ==> x_end >= self@.width,
                    forall|qx: int, qy: int|
                        0 <= qx < old(self)@.width && 0 <= qy < old(self)@.height ==> #[trigger] self@.at(qx, qy) == if (x <= qx < x + w && y <= qy < py) || (x <= qx < px && qy == py) {
                            cell@
                        } else {
                            old(self)@.at(qx, qy)
                        },
                decreases x_end - px,
            {
                self.set_at(px, py, cell.clone());
                px = px + 1;
            }
            py = py + 1;
        }
        Ok(())
    }

    /// Resizes to `width × height`, keeping the overlapping top-left region and filling
    /// the rest with default cells. Fails with `Dimension` when either dimension is zero.
    pub fn resize(&mut self, width: usize, height: usize) -> (r: Result<(), TuiError>)
        requires
            old(self)@.wf(),
            width * height <= usize::MAX,
        ensures
            final(self)@.wf(),
            r is Err <==> (width == 0 || height == 0),
            r is Err ==> r == Err::<(), TuiError>(TuiError::Dimension) && final(self)@ == old(self)@,
            r is Ok ==> final(self)@.width == width && final(self)@.height == height,
            r is Ok ==> forall|qx: int, qy: int|
                0 <= qx < width && 0 <= qy < height ==> #[trigger] final(self)@.at(qx, qy)
                    == resized_at(old(self)@, qx, qy),
            r is Ok ==> forall|qx: int, qy: int|
                0 <= qx < width && 0 <= qy < height && qx < old(self)@.width && qy < old(
                    self,
                )@.height ==> #[trigger] final(self)@.at(qx, qy) == old(self)@.at(qx, qy),
            r is Ok ==> forall|qx: int, qy: int|
                0 <= qx < width && 0 <= qy < height && !(qx < old(self)@.width && qy < old(
                    self,
                )@.height) ==> #[trigger] final(self)@.at(qx, qy) == default_cell(),
    {
        if width == 0 || height == 0 {
            return Err(TuiError::Dimension);
        }
        let n = width * height;
        let mut cells: Vec<Cell> = Vec::new();
        let old_len = self.cells.len();
        for i in 0..n
            invariant
                old_len == self.cells@.len(),
                n == width * height,
                width > 0,
                self@ == old(self)@,
                self@.wf(),
                cells@.len() == i,
                forall|j: int|
                    0 <= j < i ==> #[trigger] cells@[j]@ == resized_at(
                        old(self)@,
                        j % width as int,
                        j / width as int,
                    ),
        {
            let x = i % width;
            let y = i / width;
            if x < self.width && y < self.height {
                proof {
                    lemma_grid_index(x as int, y as int, self.width as int, self.height as int);
                }
                let c = self.cells[y * self.width + x].clone();
                cells.push(c);
            } else {
                cells.push(Cell::new());
            }
        }
        let ghost new_cells = cells@;
        self.width = width;
        self.height = height;
        self.cells = cells;
        proof {
            assert forall|qx: int, qy: int|
                0 <= qx < width && 0 <= qy < height implies #[trigger] self@.at(qx, qy)
                    == resized_at(old(self)@, qx, qy) by {
                lemma_grid_index(qx, qy, width as int, height as int);
                assert(new_cells[qy * width + qx]@ == resized_at(old(self)@, qx, qy));
            }
        }
        Ok(())
    }

    /// The escape sequences that bring a screen showing `other` to this buffer's contents.
    /// With `full_repaint` the output starts with cursor-home and clear-screen and every cell
    /// is written; otherwise only the cells that differ from `other`. Fails with `Dimension`
    /// when the buffers differ in size.
    pub fn diff_and_output_ansi(&self, other: &Buffer, full_repaint: bool) -> (r: Result<
        String,
        TuiError,
    >)
        requires
            self@.wf(),
            other@.wf(),
        ensures
            r is Err <==> (self@.width != other@.width || self@.height != other@.height),
            r is Err ==> r == Err::<String, TuiError>(TuiError::Dimension),
            r is Ok ==> r->Ok_0@ == diff_output(self@, other@, full_repaint),
    {
        if self.width != other.width || self.height != other.height {
            return Err(TuiError::Dimension);
        }
        let ghost next = self@.cells;
        let ghost cur = other@.cells;
        let ghost w = self@.width;
        let mut out = String::new();
        if full_repaint {
            out.append("\x1b[H\x1b[2J");
            proof { reveal_strlit("\x1b[H\x1b[2J"); }
        }
        assert(out@ =~= diff_scan(next, cur, w, full_repaint, 0).0);
        let mut st = StyleState { fg: None, bg: None, bold: false, italic: false, underline: false };
        let n = self.cells.len();
        for i in 0..n
            invariant
                n == next.len(),
                n == cur.len(),
                next == self@.cells,
                cur == other@.cells,
                w == self@.width,
                self@.wf(),
                out@ == diff_scan(next, cur, w, full_repaint, i as nat).0,
                st == diff_scan(next, cur, w, full_repaint, i as nat).1,
        {
            let back = &self.cells[i];
            let front = &other.cells[i];
            let changed = full_repaint || !cell_eq(back, front);
            let ghost prev = diff_scan(next, cur, w, full_repaint, i as nat);
            if changed {
                proof {
                    lemma_grid_split(i as int, self.width as int, self.height as int);
                }
                write_cell(&mut out, &mut st, back, i, self.width, self.height);
            }
            assert(next[i as int] == back@);
            assert(diff_scan(next, cur, w, full_repaint, (i + 1) as nat) == if !full_repaint && next[i as int] == cur[i as int] {
                prev
            } else {
                (
                    prev.0 + cell_output(prev.1, next[i as int], i as nat, w),
                    if style_differs(prev.1, next[i as int]) { style_of(next[i as int]) } else { prev.1 },
                )
            });
        }
        Ok(out)
    }
}

} // verus!

verus! {

proof fn lemma_scan_empty(next: Seq<CellView>, cur: Seq<CellView>, w: nat, k: nat)
    requires
        k <= next.len(),
        k <= cur.len(),
    ensures
        diff_scan(next, cur, w, false, k).0.len() == 0 <==> forall|i: int|
            0 <= i < k ==> next[i] == cur[i],
    decreases k,
{
    if k > 0 {
        lemma_scan_empty(next, cur, w, (k - 1) as nat);
        let prev = diff_scan(next, cur, w, false, (k - 1) as nat);
        let i = (k - 1) as nat;
        if next[i as int] != cur[i as int] {
            assert(cell_output(prev.1, next[i as int], i, w).len() > 0);
        }
    }
}

/// An incremental diff between buffers of equal size is empty exactly when every cell of
/// one equals the cell at the same position of the other.
pub proof fn lemma_diff_empty_iff_equal(a: BufferView, b: BufferView)
    requires
        a.wf(),
        b.wf(),
        a.width == b.width,
        a.height == b.height,
    ensures
        diff_output(a, b, false).len() == 0 <==> forall|x: int, y: int|
            0 <= x < a.width && 0 <= y < a.height ==> #[trigger] a.at(x, y) == b.at(x, y),
{
    let n = a.cells.len();
    lemma_scan_empty(a.cells, b.cells, a.width, n);
    if forall|x: int, y: int| 0 <= x < a.width && 0 <= y < a.height ==> #[trigger] a.at(x, y) == b.at(x, y) {
        assert forall|i: int| 0 <= i < n implies a.cells[i] == b.cells[i] by {
            lemma_grid_split(i, a.width as int, a.height as int);
            assert(a.at(i % a.width as int, i / a.width as int) == b.at(i % a.width as int, i / a.width as int));
        }
    }
    if forall|i: int| 0 <= i < n ==> a.cells[i] == b.cells[i] {
        assert forall|x: int, y: int| 0 <= x < a.width && 0 <= y < a.height implies #[trigger] a.at(x, y) == b.at(x, y) by {
            lemma_grid_index(x, y, a.width as int, a.height as int);
        }
    }
}

proof fn lemma_scan_full(next: Seq<CellView>, cur1: Seq<CellView>, cur2: Seq<CellView>, w: nat, k: nat)
    ensures
        diff_scan(next, cur1, w, true, k) == diff_scan(next, cur2, w, true, k),
        diff_scan(next, cur1, w, true, k).0.len() >= clear_home().len(),
        diff_scan(next, cur1, w, true, k).0.subrange(0, clear_home().len() as int) == clear_home(),
    decreases k,
{
    if k > 0 {
        lemma_scan_full(next, cur1, cur2, w, (k - 1) as nat);
        let prev = diff_scan(next, cur1, w, true, (k - 1) as nat);
        let i = (k - 1) as nat;
        let out = prev.0 + cell_output(prev.1, next[i as int], i, w);
        assert(out.subrange(0, clear_home().len() as int) =~= prev.0.subrange(0, clear_home().len() as int));
    } else {
        assert(clear_home().subrange(0, clear_home().len() as int) =~= clear_home());
    }
}

/// A full-repaint diff starts with cursor-home and clear-screen, and does not depend on
/// the buffer it is diffed against: every cell is written whatever that buffer holds.
pub proof fn lemma_full_repaint(a: BufferView, b: BufferView, c: BufferView)
    ensures
        diff_output(a, b, true) == diff_output(a, c, true),
        diff_output(a, b, true).len() >= clear_home().len(),
        diff_output(a, b, true).subrange(0, clear_home().len() as int) == clear_home(),
{
    lemma_scan_full(a.cells, b.cells, c.cells, a.width, a.cells.len());
}

} // verus!
