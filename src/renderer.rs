//! The renderer: a front/back pair of frame buffers and hit grids, a scissor stack for
//! hit regions, and the terminal state, driven one frame at a time.
use vstd::prelude::*;
use vstd::utf8::encode_utf8;
use crate::buffer::{clear_home, diff_output, lemma_full_repaint, resized_at, Buffer, BufferView};
use crate::cell::{blank_cell, default_cell, Rgba};
use crate::error::TuiError;
use crate::geometry::{in_clip, in_rect, intersect, intersect_exec, ClipRect};
use crate::grid::{lemma_grid_index, lemma_grid_same};
use crate::terminal::{
    capabilities_updated, clear_seq, fresh_terminal, cursor_color_seq, cursor_position_seq, cursor_style_seq,
    title_seq, CursorStyle, Terminal,
};
use crate::text::{chars_of, decimal, push_char, push_decimal, push_signed_decimal, signed_decimal};

verus! {

/// The corner the debug overlay sits in.
#[derive(Clone, Copy, Debug, PartialEq, Eq, Structural)]
pub enum DebugOverlayCorner {
    TopLeft,
    TopRight,
    BottomLeft,
    BottomRight,
}

/// A renderer as a mathematical value.
pub struct RendererView {
    pub next: BufferView,
    pub current: BufferView,
    pub width: nat,
    pub height: nat,
    pub render_offset: u32,
    pub background: Rgba,
    pub frame_count: u64,
    pub current_grid: Seq<u32>,
    pub next_grid: Seq<u32>,
    pub scissors: Seq<ClipRect>,
    pub overlay_enabled: bool,
    pub overlay_corner: u8,
    pub last_output: Seq<char>,
}

impl RendererView {
    pub open spec fn wf(self) -> bool {
        &&& self.width > 0
        &&& self.height > 0
        &&& self.width * self.height <= usize::MAX
        &&& self.next.wf()
        &&& self.current.wf()
        &&& self.current_grid.len() == self.next_grid.len()
        &&& self.next_grid.len() >= self.width * self.height
    }

    /// Whether `add_to_hit_grid(x, y, w, h, _)` covers cell `(col, row)`: inside the
    /// rectangle and inside the top scissor rectangle, if any.
    pub open spec fn hit_covers(self, x: int, y: int, w: int, h: int, col: int, row: int) -> bool {
        in_rect(x, y, w, h, col, row) && (self.scissors.len() == 0 || in_clip(
            self.scissors.last(),
            col,
            row,
        ))
    }

    /// The hit id recorded for `(x, y)` in the current grid; 0 outside the grid.
    pub open spec fn hit_at(self, x: int, y: int) -> u32 {
        if 0 <= x < self.width && 0 <= y < self.height {
            self.current_grid[y * self.width + x]
        } else {
            0
        }
    }
}

/// The rectangle that pushing `(x, y, w, h)` puts on a scissor stack: verbatim on an empty
/// stack, else its intersection with the top, or an empty rectangle.
pub open spec fn pushed_scissor(stack: Seq<ClipRect>, x: i32, y: i32, w: u32, h: u32) -> ClipRect {
    if stack.len() == 0 {
        ClipRect { x, y, width: w, height: h }
    } else {
        match intersect(stack.last(), x as int, y as int, w as int, h as int) {
            Some(r) => r,
            None => ClipRect { x: 0, y: 0, width: 0, height: 0 },
        }
    }
}

/// The name of a cursor style.
pub open spec fn style_name(style: CursorStyle) -> Seq<char> {
    match style {
        CursorStyle::Block => seq!['b', 'l', 'o', 'c', 'k'],
        CursorStyle::Line => seq!['l', 'i', 'n', 'e'],
        CursorStyle::Underline => seq!['u', 'n', 'd', 'e', 'r', 'l', 'i', 'n', 'e'],
    }
}

/// The cursor style a name stands for.
pub open spec fn style_named(name: Seq<char>) -> Option<CursorStyle> {
    if name == style_name(CursorStyle::Block) {
        Some(CursorStyle::Block)
    } else if name == style_name(CursorStyle::Line) {
        Some(CursorStyle::Line)
    } else if name == style_name(CursorStyle::Underline) {
        Some(CursorStyle::Underline)
    } else {
        None
    }
}

fn style_name_string(style: CursorStyle) -> (r: String)
    ensures
        r@ == style_name(style),
{
    let mut out = String::new();
    match style {
        CursorStyle::Block => out.append("block"),
        CursorStyle::Line => out.append("line"),
        CursorStyle::Underline => out.append("underline"),
    }
    proof {
        reveal_strlit("block");
        reveal_strlit("line");
        reveal_strlit("underline");
        assert(out@ =~= style_name(style));
    }
    out
}

fn same_chars(a: &Vec<char>, bv: &Vec<char>) -> (r: bool)
    ensures
        r == (a@ == bv@),
{
    let ghost b = bv@;
    if a.len() != bv.len() {
        return false;
    }
    let n = a.len();
    for i in 0..n
        invariant
            n == a@.len(),
            n == b.len(),
            bv@ == b,
            forall|j: int| 0 <= j < i ==> a@[j] == b[j],
    {
        if a[i] != bv[i] {
            return false;
        }
    }
    assert(a@ =~= b);
    true
}

fn parse_style_name(name: &str) -> (r: Option<CursorStyle>)
    ensures
        r == style_named(name@),
{
    let cs = chars_of(name);
    let block = chars_of("block");
    let line = chars_of("line");
    let underline = chars_of("underline");
    proof {
        reveal_strlit("block");
        reveal_strlit("line");
        reveal_strlit("underline");
        assert(block@ =~= style_name(CursorStyle::Block));
        assert(line@ =~= style_name(CursorStyle::Line));
        assert(underline@ =~= style_name(CursorStyle::Underline));
    }
    if same_chars(&cs, &block) {
        Some(CursorStyle::Block)
    } else if same_chars(&cs, &line) {
        Some(CursorStyle::Line)
    } else if same_chars(&cs, &underline) {
        Some(CursorStyle::Underline)
    } else {
        None
    }
}

/// A row-major grid of `n` zeros.
pub open spec fn zeros(n: nat) -> Seq<u32> {
    Seq::new(n, |i: int| 0u32)
}

/// The text of the last-output dump: a header with the timestamp, the output (or a note
/// that nothing was rendered yet), and its size in bytes.
pub open spec fn stdout_dump(output: Seq<char>, timestamp: int) -> Seq<char> {
    "Stdout Buffer Output (timestamp: "@ + signed_decimal(timestamp) + "):\n"@
        + "Last Rendered ANSI Output:\n"@ + "================\n"@ + (if output.len() == 0 {
        "(no output rendered yet)\n"@
    } else {
        output
    }) + "\n================\n"@ + "Buffer size: "@ + decimal(encode_utf8(output).len()) + " bytes\n"@
}

/// The character a buffer dump shows for `(x, y)`: the first character of the cell's
/// glyph, or a space outside the buffer or for an empty glyph.
pub open spec fn dump_char(b: BufferView, x: int, y: int) -> char {
    if 0 <= x < b.width && 0 <= y < b.height && b.at(x, y).glyph.len() > 0 {
        b.at(x, y).glyph[0]
    } else {
        ' '
    }
}

/// The first `rows` rows of a `width`-wide buffer dump, one line each.
pub open spec fn dump_rows(b: BufferView, width: nat, rows: nat) -> Seq<char>
    decreases rows,
{
    if rows == 0 {
        Seq::empty()
    } else {
        dump_rows(b, width, (rows - 1) as nat) + Seq::new(width, |x: int| dump_char(b, x, rows - 1))
            + seq!['\n']
    }
}

/// The text of a buffer dump: `{name} Buffer ({width}x{height}):`, `Characters:`, then
/// the grid.
pub open spec fn buffer_dump(name: Seq<char>, b: BufferView, width: nat, height: nat) -> Seq<char> {
    name + " Buffer ("@ + decimal(width) + "x"@ + decimal(height) + "):\n"@ + "Characters:\n"@
        + dump_rows(b, width, height)
}

fn dump_char_exec(b: &Buffer, x: usize, y: usize) -> (r: char)
    requires
        b@.wf(),
    ensures
        r == dump_char(b@, x as int, y as int),
{
    match b.get_cell(x, y) {
        Ok(c) => {
            let cs = chars_of(c.char.as_str());
            if cs.len() > 0 {
                cs[0]
            } else {
                ' '
            }
        },
        Err(_) => ' ',
    }
}

/// Double-buffered frame renderer with hit testing.
pub struct CliRenderer {
    next_buffer: Buffer,
    current_buffer: Buffer,
    width: usize,
    height: usize,
    render_offset: u32,
    background_color: Rgba,
    frame_count: u64,
    current_hit_grid: Vec<u32>,
    next_hit_grid: Vec<u32>,
    hit_scissor_stack: Vec<ClipRect>,
    terminal: Terminal,
    debug_overlay_enabled: bool,
    debug_overlay_corner: u8,
    last_rendered_output: String,
}

impl View for CliRenderer {
    type V = RendererView;

    closed spec fn view(&self) -> RendererView {
        RendererView {
            next: self.next_buffer@,
            current: self.current_buffer@,
            width: self.width as nat,
            height: self.height as nat,
            render_offset: self.render_offset,
            background: self.background_color,
            frame_count: self.frame_count,
            current_grid: self.current_hit_grid@,
            next_grid: self.next_hit_grid@,
            scissors: self.hit_scissor_stack@,
            overlay_enabled: self.debug_overlay_enabled,
            overlay_corner: self.debug_overlay_corner,
            last_output: self.last_rendered_output@,
        }
    }
}

fn zero_grid(n: usize) -> (r: Vec<u32>)
    ensures
        r@ == zeros(n as nat),
{
    let mut v: Vec<u32> = Vec::new();
    for i in 0..n
        invariant
            v@ == zeros(i as nat),
    {
        v.push(0);
        assert(v@ =~= zeros((i + 1) as nat));
    }
    v
}

/// Appends zeros until the grid holds `n` entries.
fn grow_grid(g: &mut Vec<u32>, n: usize)
    requires
        old(g)@.len() <= n,
    ensures
        final(g)@.len() == n,
        forall|i: int| 0 <= i < n ==> #[trigger] final(g)@[i] == if i < old(g)@.len() { old(g)@[i] } else { 0 },
{
    while g.len() < n
        invariant
            old(g)@.len() <= g@.len() <= n,
            forall|i: int| 0 <= i < g@.len() ==> #[trigger] g@[i] == if i < old(g)@.len() { old(g)@[i] } else { 0 },
        decreases n - g@.len(),
    {
        g.push(0);
    }
}

impl CliRenderer {
    /// The terminal state the renderer holds.
    pub closed spec fn term(&self) -> Terminal {
        self.terminal
    }

    /// A `width × height` renderer with default buffers, empty hit grids, a transparent
    /// background, and the debug overlay off in the bottom-right corner.
    /// Fails with `Dimension` when either dimension is zero.
    pub fn new(width: usize, height: usize) -> (r: Result<CliRenderer, TuiError>)
        requires
            width * height <= usize::MAX,
        ensures
            r is Err <==> (width == 0 || height == 0),
            r is Err ==> r == Err::<CliRenderer, TuiError>(TuiError::Dimension),
            r is Ok ==> {
                let v = r->Ok_0@;
                &&& v.wf()
                &&& v.width == width && v.height == height
                &&& v.next.width == width && v.next.height == height
                &&& v.current.width == width && v.current.height == height
                &&& forall|i: int| 0 <= i < v.next.cells.len() ==> v.next.cells[i] == default_cell()
                &&& forall|i: int| 0 <= i < v.current.cells.len() ==> v.current.cells[i] == default_cell()
                &&& fresh_terminal(r->Ok_0.term())
                &&& v.frame_count == 0
                &&& v.current_grid == zeros((width * height) as nat)
                &&& v.next_grid == zeros((width * height) as nat)
                &&& v.scissors.len() == 0
                &&& v.background == (0u8, 0u8, 0u8, 0u8)
                &&& !v.overlay_enabled && v.overlay_corner == 3
                &&& v.render_offset == 0
                &&& v.last_output.len() == 0
            },
    {
        if width == 0 || height == 0 {
            return Err(TuiError::Dimension);
        }
        let n = width * height;
        Ok(CliRenderer {
            next_buffer: Buffer::new(width, height),
            current_buffer: Buffer::new(width, height),
            width,
            height,
            render_offset: 0,
            background_color: (0, 0, 0, 0),
            frame_count: 0,
            current_hit_grid: zero_grid(n),
            next_hit_grid: zero_grid(n),
            hit_scissor_stack: Vec::new(),
            terminal: Terminal::new(),
            debug_overlay_enabled: false,
            debug_overlay_corner: 3,
            last_rendered_output: String::new(),
        })
    }

    /// The buffer the caller draws the next frame into. Fetch it again after each `render`.
    pub fn get_next_buffer(&mut self) -> (r: &mut Buffer)
        ensures
            r@ == old(self)@.next,
            final(self)@ == (RendererView { next: final(r)@, ..old(self)@ }),
            final(self).term() == old(self).term(),
    {
        &mut self.next_buffer
    }

    /// The buffer holding the frame most recently rendered.
    pub fn get_current_buffer(&self) -> (r: &Buffer)
        ensures
            r@ == self@.current,
    {
        &self.current_buffer
    }

    pub fn get_width(&self) -> (r: usize)
        ensures
            r == self@.width,
    {
        self.width
    }

    pub fn get_height(&self) -> (r: usize)
        ensures
            r == self@.height,
    {
        self.height
    }

    pub fn get_render_offset(&self) -> (r: u32)
        ensures
            r == self@.render_offset,
    {
        self.render_offset
    }

    pub fn set_render_offset(&mut self, offset: u32)
        ensures
            final(self)@ == (RendererView { render_offset: offset, ..old(self)@ }),
            final(self).term() == old(self).term(),
    {
        self.render_offset = offset;
    }

    /// The background that `render` clears the next buffer to.
    pub fn set_background_color(&mut self, r: u8, g: u8, b: u8, a: u8)
        ensures
            final(self)@ == (RendererView { background: (r, g, b, a), ..old(self)@ }),
            final(self).term() == old(self).term(),
    {
        self.background_color = (r, g, b, a);
    }

    /// Diffs the next frame against the current one, then makes the next frame current,
    /// clears the new next buffer to the background, advances the frame counter
    /// (saturating), swaps the hit grids, zeroes the new next grid and empties the scissor
    /// stack. The first frame is always a full repaint. `_force` is reserved and ignored.
    /// Fails with `Dimension`, changing nothing, when the two buffers differ in size.
    pub fn render(&mut self, _force: bool) -> (r: Result<String, TuiError>)
        requires
            old(self)@.wf(),
        ensures
            final(self)@.wf(),
            final(self).term() == old(self).term(),
            ({
                let o = old(self)@;
                let f = final(self)@;
                if o.next.width != o.current.width || o.next.height != o.current.height {
                    r == Err::<String, TuiError>(TuiError::Dimension) && f == o
                } else {
                    &&& r is Ok
                    &&& r->Ok_0@ == diff_output(o.next, o.current, o.frame_count == 0)
                    &&& f.current == o.next
                    &&& f.next.width == o.current.width && f.next.height == o.current.height
                    &&& forall|i: int| 0 <= i < f.next.cells.len() ==> f.next.cells[i] == blank_cell(o.background)
                    &&& f.frame_count == if o.frame_count == u64::MAX { u64::MAX } else { (o.frame_count + 1) as u64 }
                    &&& f.current_grid == o.next_grid
                    &&& f.next_grid == zeros(o.next_grid.len())
                    &&& f.scissors.len() == 0
                    &&& f.last_output == r->Ok_0@
                    &&& f.width == o.width && f.height == o.height
                    &&& f.background == o.background
                    &&& f.render_offset == o.render_offset
                    &&& f.overlay_enabled == o.overlay_enabled && f.overlay_corner == o.overlay_corner
                }
            }),
    {
        let full_repaint = self.frame_count == 0;
        let out = match self.next_buffer.diff_and_output_ansi(&self.current_buffer, full_repaint) {
            Ok(out) => out,
            Err(e) => return Err(e),
        };
        std::mem::swap(&mut self.next_buffer, &mut self.current_buffer);
        let (r, g, b, a) = self.background_color;
        self.next_buffer.clear_with_bg(r, g, b, a);
        self.frame_count = if self.frame_count == u64::MAX { u64::MAX } else { self.frame_count + 1 };
        std::mem::swap(&mut self.current_hit_grid, &mut self.next_hit_grid);
        let n = self.next_hit_grid.len();
        self.next_hit_grid = zero_grid(n);
        self.hit_scissor_stack = Vec::new();
        self.last_rendered_output = out.clone();
        Ok(out)
    }

    /// Records `id` on every cell of the next hit grid that the rectangle `(x, y, w, h)`
    /// covers inside the top scissor rectangle (if any) and inside the grid.
    pub fn add_to_hit_grid(&mut self, x: i32, y: i32, width: u32, height: u32, id: u32)
        requires
            old(self)@.wf(),
        ensures
            final(self)@.wf(),
            final(self).term() == old(self).term(),
            final(self)@ == (RendererView { next_grid: final(self)@.next_grid, ..old(self)@ }),
            final(self)@.next_grid.len() == old(self)@.next_grid.len(),
            forall|col: int, row: int|
                0 <= col < old(self)@.width && 0 <= row < old(self)@.height ==> #[trigger] final(self)@.next_grid[row * old(self)@.width + col] == if old(self)@.hit_covers(
                    x as int,
                    y as int,
                    width as int,
                    height as int,
                    col,
                    row,
                ) {
                    id
                } else {
                    old(self)@.next_grid[row * old(self)@.width + col]
                },
            forall|i: int|
                old(self)@.width * old(self)@.height <= i < old(self)@.next_grid.len()
                    ==> #[trigger] final(self)@.next_grid[i] == old(self)@.next_grid[i],
    {
        let clipped = if self.hit_scissor_stack.len() == 0 {
            Some(ClipRect { x, y, width, height })
        } else {
            let top = self.hit_scissor_stack[self.hit_scissor_stack.len() - 1];
            intersect_exec(top, x, y, width, height)
        };
        proof {
            if self.hit_scissor_stack@.len() > 0 {
                assert forall|col: int, row: int| #![auto]
                    (clipped is Some && in_clip(clipped->0, col, row)) <==> old(self)@.hit_covers(
                        x as int,
                        y as int,
                        width as int,
                        height as int,
                        col,
                        row,
                    ) by {
                    crate::geometry::lemma_intersect_membership(
                        self.hit_scissor_stack@.last(),
                        x as int,
                        y as int,
                        width as int,
                        height as int,
                        col,
                        row,
                    );
                }
            }
        }
        let c = match clipped {
            None => return,
            Some(c) => c,
        };
        let w = self.width;
        let cx = c.x as i64;
        let cxe = cx + c.width as i64;
        let cy = c.y as i64;
        let cye = cy + c.height as i64;
        let sx: usize = if cx <= 0 { 0 } else { cx as usize };
        let ex: usize = if cxe <= 0 { 0 } else if cxe as u64 >= self.width as u64 { self.width } else { cxe as usize };
        let sy: usize = if cy <= 0 { 0 } else { cy as usize };
        let ey: usize = if cye <= 0 { 0 } else if cye as u64 >= self.height as u64 { self.height } else { cye as usize };
        let ghost o = old(self)@;
        let mut row = sy;
        while row < ey
            invariant
                o == old(self)@,
                o.wf(),
                w == o.width,
                ey <= o.height,
                ex <= o.width,
                sy <= row,
                row <= ey || row == sy,
                self@ == (RendererView { next_grid: self@.next_grid, ..o }),
                self.terminal == old(self).terminal,
                self@.next_grid.len() == o.next_grid.len(),
                forall|col2: int, row2: int| 0 <= col2 < o.width && 0 <= row2 < o.height ==> (
                    (sx <= col2 < ex && sy <= row2 < ey) <==> in_clip(c, col2, row2)),
                forall|col2: int, row2: int|
                    0 <= col2 < o.width && 0 <= row2 < o.height ==> #[trigger] self@.next_grid[row2
                        * o.width + col2] == if sx <= col2 < ex && sy <= row2 < row {
                        id
                    } else {
                        o.next_grid[row2 * o.width + col2]
                    },
                forall|i: int|
                    o.width * o.height <= i < o.next_grid.len() ==> #[trigger] self@.next_grid[i]
                        == o.next_grid[i],
            decreases ey - row,
        {
            let mut col = sx;
            while col < ex
                invariant
                    o == old(self)@,
                    o.wf(),
                    w == o.width,
                    ey <= o.height,
                    ex <= o.width,
                    sy <= row < ey,
                    sx <= col,
                    col <= ex || col == sx,
                    self@ == (RendererView { next_grid: self@.next_grid, ..o }),
                    self.terminal == old(self).terminal,
                    self@.next_grid.len() == o.next_grid.len(),
                    forall|col2: int, row2: int|
                        0 <= col2 < o.width && 0 <= row2 < o.height ==> #[trigger] self@.next_grid[row2
                            * o.width + col2] == if (sx <= col2 < ex && sy <= row2 < row) || (sx <= col2
                            < col && row2 == row) {
                            id
                        } else {
                            o.next_grid[row2 * o.width + col2]
                        },
                    forall|i: int|
                        o.width * o.height <= i < o.next_grid.len() ==> #[trigger] self@.next_grid[i]
                            == o.next_grid[i],
                decreases ex - col,
            {
                proof { lemma_grid_index(col as int, row as int, w as int, o.height as int); }
                let ghost before = self@.next_grid;
                self.next_hit_grid.set(row * w + col, id);
                proof {
                    assert forall|col2: int, row2: int|
                        0 <= col2 < o.width && 0 <= row2 < o.height implies #[trigger] self@.next_grid[row2
                            * o.width + col2] == if (sx <= col2 < ex && sy <= row2 < row) || (sx <= col2
                            < col + 1 && row2 == row) {
                            id
                        } else {
                            o.next_grid[row2 * o.width + col2]
                        } by {
                        lemma_grid_same(col2, row2, col as int, row as int, w as int, o.height as int);
                        lemma_grid_index(col2, row2, w as int, o.height as int);
                    }
                }
                col = col + 1;
            }
            row = row + 1;
        }
    }

    /// The id recorded at `(x, y)` in the grid of the frame most recently rendered;
    /// 0 outside the grid or where nothing was recorded.
    pub fn check_hit(&self, x: u32, y: u32) -> (r: u32)
        requires
            self@.wf(),
        ensures
            r == self@.hit_at(x as int, y as int),
    {
        if (x as usize) < self.width && (y as usize) < self.height {
            proof { lemma_grid_index(x as int, y as int, self.width as int, self.height as int); }
            self.current_hit_grid[(y as usize) * self.width + (x as usize)]
        } else {
            0
        }
    }

    /// Zeroes the grid of the frame most recently rendered.
    pub fn clear_current_hit_grid(&mut self)
        requires
            old(self)@.wf(),
        ensures
            final(self)@.wf(),
            final(self).term() == old(self).term(),
            final(self)@ == (RendererView { current_grid: zeros(old(self)@.current_grid.len()), ..old(self)@ }),
    {
        let n = self.current_hit_grid.len();
        self.current_hit_grid = zero_grid(n);
    }

    /// Pushes a scissor rectangle: verbatim on an empty stack, else its intersection with
    /// the top (an empty rectangle when they do not meet).
    pub fn hit_grid_push_scissor_rect(&mut self, x: i32, y: i32, width: u32, height: u32)
        requires
            old(self)@.wf(),
        ensures
            final(self)@.wf(),
            final(self).term() == old(self).term(),
            final(self)@ == (RendererView {
                scissors: old(self)@.scissors.push(pushed_scissor(old(self)@.scissors, x, y, width, height)),
                ..old(self)@
            }),
    {
        let rect = if self.hit_scissor_stack.len() == 0 {
            ClipRect { x, y, width, height }
        } else {
            let top = self.hit_scissor_stack[self.hit_scissor_stack.len() - 1];
            match intersect_exec(top, x, y, width, height) {
                Some(r) => r,
                None => ClipRect { x: 0, y: 0, width: 0, height: 0 },
            }
        };
        self.hit_scissor_stack.push(rect);
    }

    /// Removes the top scissor rectangle, if any.
    pub fn hit_grid_pop_scissor_rect(&mut self)
        requires
            old(self)@.wf(),
        ensures
            final(self)@.wf(),
            final(self).term() == old(self).term(),
            final(self)@ == (RendererView {
                scissors: if old(self)@.scissors.len() == 0 {
                    old(self)@.scissors
                } else {
                    old(self)@.scissors.drop_last()
                },
                ..old(self)@
            }),
    {
        let _ = self.hit_scissor_stack.pop();
        assert(old(self)@.scissors.len() > 0 ==> self@.scissors =~= old(self)@.scissors.drop_last());
    }

    /// Empties the scissor stack.
    pub fn hit_grid_clear_scissor_rects(&mut self)
        requires
            old(self)@.wf(),
        ensures
            final(self)@.wf(),
            final(self).term() == old(self).term(),
            final(self)@ == (RendererView { scissors: Seq::empty(), ..old(self)@ }),
    {
        self.hit_scissor_stack = Vec::new();
    }

    /// Resizes both buffers to `width × height` and grows both hit grids (never shrinking
    /// them) with zeros. Fails with `Dimension`, changing nothing, when either dimension is
    /// zero.
    pub fn resize(&mut self, width: usize, height: usize) -> (r: Result<(), TuiError>)
        requires
            old(self)@.wf(),
            width * height <= usize::MAX,
        ensures
            final(self)@.wf(),
            final(self).term() == old(self).term(),
            r is Err <==> (width == 0 || height == 0),
            r is Err ==> r == Err::<(), TuiError>(TuiError::Dimension) && final(self)@ == old(self)@,
            r is Ok ==> {
                let o = old(self)@;
                let f = final(self)@;
                &&& f.width == width && f.height == height
                &&& f.next.width == width && f.next.height == height
                &&& f.current.width == width && f.current.height == height
                &&& forall|qx: int, qy: int|
                    0 <= qx < width && 0 <= qy < height ==> #[trigger] f.next.at(qx, qy) == resized_at(o.next, qx, qy)
                &&& forall|qx: int, qy: int|
                    0 <= qx < width && 0 <= qy < height ==> #[trigger] f.current.at(qx, qy) == resized_at(o.current, qx, qy)
                &&& f.next_grid.len() == if width * height > o.next_grid.len() { (width * height) as int } else { o.next_grid.len() as int }
                &&& forall|i: int| 0 <= i < f.next_grid.len() ==> #[trigger] f.next_grid[i] == if i < o.next_grid.len() { o.next_grid[i] } else { 0 }
                &&& forall|i: int| 0 <= i < f.current_grid.len() ==> #[trigger] f.current_grid[i] == if i < o.current_grid.len() { o.current_grid[i] } else { 0 }
                &&& f.frame_count == o.frame_count
                &&& f.scissors == o.scissors
                &&& f.background == o.background
            },
    {
        if width == 0 || height == 0 {
            return Err(TuiError::Dimension);
        }
        let _ = self.next_buffer.resize(width, height);
        let _ = self.current_buffer.resize(width, height);
        let n = width * height;
        if n > self.current_hit_grid.len() {
            grow_grid(&mut self.current_hit_grid, n);
            grow_grid(&mut self.next_hit_grid, n);
        }
        self.width = width;
        self.height = height;
        Ok(())
    }

    pub fn set_cursor_position(&mut self, x: u32, y: u32, visible: bool)
        ensures
            final(self)@ == old(self)@,
            final(self).term() == (Terminal {
                cursor_x: if x < 1 { 1 } else { x },
                cursor_y: if y < 1 { 1 } else { y },
                cursor_visible: visible,
                ..old(self).term()
            }),
    {
        self.terminal.set_cursor_position(x, y, visible);
    }

    /// Sets the cursor shape by name: "block", "line" or "underline". Fails with
    /// `InvalidArgument`, changing nothing, for any other name.
    pub fn set_cursor_style(&mut self, style: &str, blinking: bool) -> (r: Result<(), TuiError>)
        ensures
            final(self)@ == old(self)@,
            r is Err <==> style_named(style@) is None,
            r is Err ==> r == Err::<(), TuiError>(TuiError::InvalidArgument) && final(self).term()
                == old(self).term(),
            r is Ok ==> final(self).term() == (Terminal {
                cursor_style: style_named(style@)->0,
                cursor_blinking: blinking,
                ..old(self).term()
            }),
    {
        match parse_style_name(style) {
            None => Err(TuiError::InvalidArgument),
            Some(s) => {
                self.terminal.set_cursor_style(s, blinking);
                Ok(())
            },
        }
    }

    /// Sets the cursor colour, one byte per channel.
    pub fn set_cursor_color(&mut self, r: u8, g: u8, b: u8, a: u8)
        ensures
            final(self)@ == old(self)@,
            final(self).term() == (Terminal { cursor_color: (r, g, b, a), ..old(self).term() }),
    {
        self.terminal.set_cursor_color((r, g, b, a));
    }

    pub fn get_cursor_position(&self) -> (r: (u32, u32, bool))
        ensures
            r == (self.term().cursor_x, self.term().cursor_y, self.term().cursor_visible),
    {
        (self.terminal.get_cursor_x(), self.terminal.get_cursor_y(), self.terminal.get_cursor_visible())
    }

    /// The cursor shape's name and whether it blinks.
    pub fn get_cursor_style(&self) -> (r: (String, bool))
        ensures
            r.0@ == style_name(self.term().cursor_style),
            r.1 == self.term().cursor_blinking,
    {
        let (style, blinking) = self.terminal.get_cursor_style();
        (style_name_string(style), blinking)
    }

    pub fn get_cursor_color(&self) -> (r: Rgba)
        ensures
            r == self.term().cursor_color,
    {
        self.terminal.get_cursor_color()
    }

    pub fn cursor_position_ansi(&self) -> (r: String)
        ensures
            r@ == cursor_position_seq(self.term()),
    {
        self.terminal.cursor_position_ansi()
    }

    pub fn cursor_style_ansi(&self) -> (r: String)
        ensures
            r@ == cursor_style_seq(self.term()),
    {
        self.terminal.cursor_style_ansi()
    }

    pub fn cursor_color_ansi(&self) -> (r: String)
        ensures
            r@ == cursor_color_seq(self.term()),
    {
        self.terminal.cursor_color_ansi()
    }

    pub fn set_terminal_title_ansi(&self, title: &str) -> (r: String)
        ensures
            r@ == title_seq(title@),
    {
        self.terminal.set_terminal_title_ansi(title)
    }

    pub fn clear_terminal_ansi(&self) -> (r: String)
        ensures
            r@ == clear_seq(),
    {
        self.terminal.clear_terminal_ansi()
    }

    /// Feeds one aggregated device response to capability negotiation.
    pub fn process_capability_response(&mut self, response: &str)
        ensures
            final(self)@ == old(self)@,
            capabilities_updated(old(self).term(), final(self).term(), response@),
    {
        self.terminal.process_capability_response(response);
    }

    pub fn get_terminal_name(&self) -> (r: String)
        ensures
            r@ == self.term().term_name@,
    {
        self.terminal.get_terminal_name().to_owned()
    }

    pub fn get_terminal_version(&self) -> (r: String)
        ensures
            r@ == self.term().term_version@,
    {
        self.terminal.get_terminal_version().to_owned()
    }

    pub fn get_from_xtversion(&self) -> (r: bool)
        ensures
            r == self.term().from_xtversion,
    {
        self.terminal.get_from_xtversion()
    }

    pub fn get_kitty_keyboard(&self) -> (r: bool)
        ensures
            r == self.term().kitty_keyboard,
    {
        self.terminal.get_kitty_keyboard()
    }

    pub fn get_kitty_graphics(&self) -> (r: bool)
        ensures
            r == self.term().kitty_graphics,
    {
        self.terminal.get_kitty_graphics()
    }

    /// Records a terminal name and version learned some other way than a version reply.
    pub fn set_terminal_info_for_test(&mut self, name: &str, version: &str)
        ensures
            final(self)@ == old(self)@,
            final(self).term().term_name@ == name@,
            final(self).term().term_version@ == version@,
            !final(self).term().from_xtversion,
    {
        self.terminal.set_term_info_for_test(name, version);
    }

    /// Turns the debug overlay on or off and places it: 0 top-left, 1 top-right,
    /// 2 bottom-left, 3 bottom-right. Fails with `InvalidArgument`, changing nothing,
    /// for any other corner.
    pub fn set_debug_overlay(&mut self, enabled: bool, corner: u8) -> (r: Result<(), TuiError>)
        ensures
            final(self).term() == old(self).term(),
            r is Err <==> corner > 3,
            r is Err ==> r == Err::<(), TuiError>(TuiError::InvalidArgument) && final(self)@ == old(self)@,
            r is Ok ==> final(self)@ == (RendererView {
                overlay_enabled: enabled,
                overlay_corner: corner,
                ..old(self)@
            }),
    {
        if corner > 3 {
            return Err(TuiError::InvalidArgument);
        }
        self.debug_overlay_enabled = enabled;
        self.debug_overlay_corner = corner;
        Ok(())
    }

    pub fn get_debug_overlay(&self) -> (r: (bool, u8))
        ensures
            r == (self@.overlay_enabled, self@.overlay_corner),
    {
        (self.debug_overlay_enabled, self.debug_overlay_corner)
    }

    /// The text of a dump of the last rendered output.
    pub fn stdout_dump_text(&self, timestamp: i64) -> (r: String)
        ensures
            r@ == stdout_dump(self@.last_output, timestamp as int),
    {
        let mut out = String::new();
        out.append("Stdout Buffer Output (timestamp: ");
        push_signed_decimal(&mut out, timestamp);
        out.append("):\n");
        out.append("Last Rendered ANSI Output:\n");
        out.append("================\n");
        if self.last_rendered_output.as_str().is_empty() {
            out.append("(no output rendered yet)\n");
        } else {
            out.append(self.last_rendered_output.as_str());
        }
        out.append("\n================\n");
        out.append("Buffer size: ");
        push_decimal(&mut out, self.last_rendered_output.as_str().as_bytes().len() as u64);
        out.append(" bytes\n");
        assert(out@ =~= stdout_dump(self@.last_output, timestamp as int));
        out
    }

    /// The text of a dump of the current buffer (`current`) or the next one, drawn at the
    /// renderer's size.
    pub fn buffer_dump_text(&self, current: bool) -> (r: String)
        requires
            self@.wf(),
        ensures
            r@ == buffer_dump(
                if current { "current"@ } else { "next"@ },
                if current { self@.current } else { self@.next },
                self@.width,
                self@.height,
            ),
    {
        let b = if current { &self.current_buffer } else { &self.next_buffer };
        let mut out = String::new();
        if current {
            out.append("current");
        } else {
            out.append("next");
        }
        out.append(" Buffer (");
        push_decimal(&mut out, self.width as u64);
        out.append("x");
        push_decimal(&mut out, self.height as u64);
        out.append("):\n");
        out.append("Characters:\n");
        let ghost head = out@;
        let ghost bv = b@;
        for y in 0..self.height
            invariant
                b@ == bv,
                bv.wf(),
                out@ == head + dump_rows(bv, self.width as nat, y as nat),
        {
            for x in 0..self.width
                invariant
                    b@ == bv,
                    bv.wf(),
                    out@ == head + dump_rows(bv, self.width as nat, y as nat) + Seq::new(
                        x as nat,
                        |i: int| dump_char(bv, i, y as int),
                    ),
            {
                let c = dump_char_exec(b, x, y);
                push_char(&mut out, c);
                assert(out@ =~= head + dump_rows(bv, self.width as nat, y as nat) + Seq::new(
                    (x + 1) as nat,
                    |i: int| dump_char(bv, i, y as int),
                ));
            }
            push_char(&mut out, '\n');
            assert(out@ =~= head + dump_rows(bv, self.width as nat, (y + 1) as nat));
        }
        assert(out@ =~= buffer_dump(
            if current { "current"@ } else { "next"@ },
            bv,
            self@.width,
            self@.height,
        ));
        out
    }
}

} // verus!

verus! {

/// The first frame (frame counter 0) is rendered as a full repaint: the output starts with
/// cursor-home and clear-screen and writes every cell, whatever the current buffer holds,
/// even when it equals the next one.
pub proof fn lemma_first_render_repaints(v: RendererView, other: BufferView)
    requires
        v.frame_count == 0,
    ensures
        diff_output(v.next, v.current, v.frame_count == 0) == diff_output(v.next, other, true),
        diff_output(v.next, v.current, v.frame_count == 0).len() >= clear_home().len(),
        diff_output(v.next, v.current, v.frame_count == 0).subrange(0, clear_home().len() as int)
            == clear_home(),
{
    lemma_full_repaint(v.next, v.current, other);
}

} // verus!
