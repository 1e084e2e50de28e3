use vstd::prelude::*;

verus! {

/// A character with its colour index.
pub type Glyph = (char, u8);

/// The value of an erased position.
pub open spec fn clear_glyph() -> Glyph {
    (' ', 0u8)
}

/// The mathematical value of a screen buffer: its size, its cursor, and its
/// positions in row-major order.
pub struct Grid {
    pub width: int,
    pub height: int,
    pub cursor: (int, int),
    pub cells: Seq<Glyph>,
}

/// `cells` with positions `lo..hi` erased.
pub open spec fn cleared(cells: Seq<Glyph>, lo: int, hi: int) -> Seq<Glyph> {
    Seq::new(cells.len(), |i: int| if lo <= i < hi { clear_glyph() } else { cells[i] })
}

/// Decimal digits of `n` in ASCII, most significant first.
pub open spec fn decimal(n: nat) -> Seq<u8>
    decreases n,
{
    if n < 10 {
        seq![(48 + n) as u8]
    } else {
        decimal(n / 10) + seq![(48 + n % 10) as u8]
    }
}

impl Grid {
    pub open spec fn wf(self) -> bool {
        &&& 1 <= self.width
        &&& 1 <= self.height
        &&& self.width * self.height <= i32::MAX
        &&& self.cells.len() == self.width * self.height
        &&& 0 <= self.cursor.0 < self.width
        &&& 0 <= self.cursor.1 < self.height
    }

    /// Index of the first position of row `y`.
    pub open spec fn row_start(self, y: int) -> int {
        y * self.width
    }

    /// Every row moves up by one; the bottom row stays as it was.
    pub open spec fn scrolled(self) -> Grid {
        Grid {
            cells: Seq::new(
                self.cells.len(),
                |i: int|
                    if i < (self.height - 1) * self.width {
                        self.cells[i + self.width]
                    } else {
                        self.cells[i]
                    },
            ),
            ..self
        }
    }

    /// The cursor moves to the start of the next row; on the bottom row the
    /// screen scrolls up and the bottom row is erased instead.
    pub open spec fn newline(self) -> Grid {
        if self.cursor.1 < self.height - 1 {
            Grid { cursor: (0, self.cursor.1 + 1), ..self }
        } else {
            let s = self.scrolled();
            Grid {
                cursor: (0, self.cursor.1),
                cells: cleared(s.cells, self.row_start(self.cursor.1), self.row_start(self.cursor.1) + self.width),
                ..s
            }
        }
    }

    /// The cursor moves one position right, or to the next row from the
    /// last column.
    pub open spec fn advance(self) -> Grid {
        if self.cursor.0 < self.width - 1 {
            Grid { cursor: (self.cursor.0 + 1, self.cursor.1), ..self }
        } else {
            self.newline()
        }
    }

    pub open spec fn put_char(self, ch: char, color: u8, inc: bool) -> Grid {
        if ch == '\r' || ch as u32 == 7 {
            self
        } else if ch == '\n' {
            self.newline()
        } else if ch as u32 == 8 {
            if self.cursor.0 > 0 {
                Grid { cursor: (self.cursor.0 - 1, self.cursor.1), ..self }
            } else {
                self
            }
        } else {
            let g = Grid {
                cells: self.cells.update(self.row_start(self.cursor.1) + self.cursor.0, (ch, color)),
                ..self
            };
            if inc {
                g.advance()
            } else {
                g
            }
        }
    }

    pub open spec fn clamp(v: int, n: int) -> int {
        if v > n - 1 {
            n - 1
        } else if v < 0 {
            0
        } else {
            v
        }
    }

    /// Positions erased by an erase-in-display request; `None` for an
    /// unknown parameter.
    pub open spec fn display_span(self, param: i32) -> Option<(int, int)> {
        if param == 0 {
            Some((self.row_start(self.cursor.1), self.width * self.height))
        } else if param == 1 {
            Some((0, self.row_start(self.cursor.1) + self.width))
        } else if param == 2 {
            Some((0, self.width * self.height))
        } else {
            None
        }
    }

    /// Positions erased by an erase-in-line request; `None` for an unknown
    /// parameter.
    pub open spec fn line_span(self, param: i32) -> Option<(int, int)> {
        let start = self.row_start(self.cursor.1);
        if param == 0 {
            Some((start + self.cursor.0, start + self.width))
        } else if param == 1 {
            Some((start, start + self.cursor.0 + 1))
        } else if param == 2 {
            Some((start, start + self.width))
        } else {
            None
        }
    }

    pub open spec fn erase(self, span: Option<(int, int)>) -> Grid {
        match span {
            Some((lo, hi)) => Grid { cells: cleared(self.cells, lo, hi), ..self },
            None => self,
        }
    }
}

/// A character grid driven by a stream of characters and erase requests,
/// with a cursor that always stays on the grid.
pub struct ScreenBuffer {
    size: [i32; 2],
    cursor: [i32; 2],
    pub buffer: Vec<Glyph>,
}

impl View for ScreenBuffer {
    type V = Grid;

    closed spec fn view(&self) -> Grid {
        Grid {
            width: self.size[0] as int,
            height: self.size[1] as int,
            cursor: (self.cursor[0] as int, self.cursor[1] as int),
            cells: self.buffer@,
        }
    }
}

proof fn lemma_row_bounds(y: int, w: int, h: int)
    requires
        0 <= y < h,
        1 <= w,
    ensures
        0 <= y * w,
        y * w + w <= h * w,
        w * h == h * w,
{
    assert(y * w + w <= h * w) by (nonlinear_arith)
        requires
            y < h,
            1 <= w,
    ;
    assert(0 <= y * w) by (nonlinear_arith)
        requires
            0 <= y,
            1 <= w,
    ;
    assert(w * h == h * w) by (nonlinear_arith);
}

impl ScreenBuffer {
    pub closed spec fn wf(&self) -> bool {
        self@.wf()
    }

    /// A grid of `size` columns and rows, all erased, cursor at the origin.
    pub fn new(size: [i32; 2]) -> (r: ScreenBuffer)
        requires
            1 <= size[0],
            1 <= size[1],
            size[0] * size[1] <= i32::MAX,
        ensures
            r.wf(),
            r@ == (Grid {
                width: size[0] as int,
                height: size[1] as int,
                cursor: (0, 0),
                cells: Seq::new((size[0] * size[1]) as nat, |i: int| clear_glyph()),
            }),
    {
        let n: usize = (size[0] * size[1]) as usize;
        let mut buffer: Vec<Glyph> = Vec::new();
        let mut i: usize = 0;
        while i < n
            invariant
                i <= n,
                buffer@ == Seq::new(i as nat, |j: int| clear_glyph()),
            decreases n - i,
        {
            buffer.push((' ', 0u8));
            i = i + 1;
            assert(buffer@ =~= Seq::new(i as nat, |j: int| clear_glyph()));
        }
        ScreenBuffer { size, cursor: [0, 0], buffer }
    }

    /// Erases positions `lo..hi`.
    fn clear_range(&mut self, lo: usize, hi: usize)
        requires
            old(self).wf(),
            lo <= hi <= old(self)@.cells.len(),
        ensures
            final(self).wf(),
            final(self)@ == (Grid { cells: cleared(old(self)@.cells, lo as int, hi as int), ..old(self)@ }),
    {
        let ghost before = self.buffer@;
        let mut i: usize = lo;
        while i < hi
            invariant
                lo <= i <= hi,
                hi <= self.buffer@.len(),
                before.len() == self.buffer@.len(),
                self.size == old(self).size,
                self.cursor == old(self).cursor,
                before == old(self).buffer@,
                self.buffer@ == cleared(before, lo as int, i as int),
            decreases hi - i,
        {
            self.buffer.set(i, (' ', 0u8));
            i = i + 1;
            assert(self.buffer@ =~= cleared(before, lo as int, i as int));
        }
    }

    fn clear_line(&mut self)
        requires
            old(self).wf(),
        ensures
            final(self).wf(),
            final(self)@ == old(self)@.erase(Some((old(self)@.row_start(old(self)@.cursor.1), old(self)@.row_start(old(self)@.cursor.1) + old(self)@.width))),
    {
        proof {
            lemma_row_bounds(self.cursor[1] as int, self.size[0] as int, self.size[1] as int);
        }
        let start = (self.cursor[1] * self.size[0]) as usize;
        let w = self.size[0] as usize;
        self.clear_range(start, start + w);
    }

    // does not move cursor
    fn scroll_up(&mut self)
        requires
            old(self).wf(),
        ensures
            final(self).wf(),
            final(self)@ == old(self)@.scrolled(),
    {
        let ghost before = self.buffer@;
        let w = self.size[0] as usize;
        proof {
            lemma_row_bounds(self.size[1] - 1, self.size[0] as int, self.size[1] as int);
            let (w, h) = (self.size[0] as int, self.size[1] as int);
            assert((h - 1) * w + w == w * h) by (nonlinear_arith);
        }
        let last = ((self.size[1] - 1) * self.size[0]) as usize;
        let mut i: usize = 0;
        while i < last
            invariant
                i <= last,
                last + w == before.len(),
                w == self.size[0],
                last == (self.size[1] - 1) * self.size[0],
                self.size == old(self).size,
                self.cursor == old(self).cursor,
                before == old(self).buffer@,
                self.buffer@.len() == before.len(),
                forall|j: int| 0 <= j < i ==> #[trigger] self.buffer@[j] == before[j + w],
                forall|j: int| i <= j < before.len() ==> #[trigger] self.buffer@[j] == before[j],
            decreases last - i,
        {
            let _ = self.buffer.len();
            let g = self.buffer[i + w];
            self.buffer.set(i, g);
            i = i + 1;
        }
        assert(self.buffer@ =~= old(self)@.scrolled().cells);
    }

    fn cursor_newline(&mut self)
        requires
            old(self).wf(),
        ensures
            final(self).wf(),
            final(self)@ == old(self)@.newline(),
    {
        self.cursor[0] = 0;
        if self.cursor[1] < self.size[1] - 1 {
            self.cursor[1] = self.cursor[1] + 1;
        } else {
            self.scroll_up();
            self.clear_line();
        }
    }

    fn cursor_inc(&mut self)
        requires
            old(self).wf(),
        ensures
            final(self).wf(),
            final(self)@ == old(self)@.advance(),
    {
        if self.cursor[0] < self.size[0] - 1 {
            self.cursor[0] = self.cursor[0] + 1;
        } else {
            self.cursor_newline();
        }
    }

    // not set char
    fn backspace(&mut self)
        requires
            old(self).wf(),
        ensures
            final(self).wf(),
            final(self)@ == (if old(self)@.cursor.0 > 0 {
                Grid { cursor: (old(self)@.cursor.0 - 1, old(self)@.cursor.1), ..old(self)@ }
            } else {
                old(self)@
            }),
    {
        if self.cursor[0] > 0 {
            self.cursor[0] = self.cursor[0] - 1;
        }
    }

    /// Takes one character: carriage return and bell do nothing, line feed
    /// starts a new row, backspace moves the cursor left; any other
    /// character is written at the cursor, which then advances when
    /// `cursor_inc` is set.
    pub fn set_char(&mut self, ch: char, color: u8, cursor_inc: bool)
        requires
            old(self).wf(),
        ensures
            final(self).wf(),
            final(self)@ == old(self)@.put_char(ch, color, cursor_inc),
    {
        if ch == '\r' {
            return;
        }
        if ch == '\n' {
            self.cursor_newline();
            return;
        }
        if ch == 7u8 as char {
            return;
        }
        if ch == 8u8 as char {
            // overrides cursor_inc
            self.backspace();
            return;
        }
        proof {
            lemma_row_bounds(self.cursor[1] as int, self.size[0] as int, self.size[1] as int);
        }
        let at = (self.cursor[0] + self.cursor[1] * self.size[0]) as usize;
        self.buffer.set(at, (ch, color));
        if cursor_inc {
            self.cursor_inc();
        }
    }

    /// Moves the cursor to `(x, y)`, or by `(x, y)` when `abs` is not set,
    /// then pulls it back onto the grid.
    pub fn move_cursor(&mut self, x: i32, y: i32, abs: bool)
        requires
            old(self).wf(),
        ensures
            final(self).wf(),
            final(self)@ == (Grid {
                cursor: if abs {
                    (Grid::clamp(x as int, old(self)@.width), Grid::clamp(y as int, old(self)@.height))
                } else {
                    (
                        Grid::clamp(old(self)@.cursor.0 + x, old(self)@.width),
                        Grid::clamp(old(self)@.cursor.1 + y, old(self)@.height),
                    )
                },
                ..old(self)@
            }),
    {
        let (tx, ty): (i64, i64) = if abs {
            (x as i64, y as i64)
        } else {
            (self.cursor[0] as i64 + x as i64, self.cursor[1] as i64 + y as i64)
        };
        let mx = self.size[0] as i64 - 1;
        let my = self.size[1] as i64 - 1;
        let cx = if tx > mx { mx } else if tx < 0 { 0 } else { tx };
        let cy = if ty > my { my } else if ty < 0 { 0 } else { ty };
        self.cursor[0] = cx as i32;
        self.cursor[1] = cy as i32;
    }

    /// Erase in display: from the cursor's row to the end (0), from the
    /// start through the cursor's row (1), or everything (2); any other
    /// parameter does nothing.
    pub fn erase_display(&mut self, param: i32)
        requires
            old(self).wf(),
        ensures
            final(self).wf(),
            final(self)@ == old(self)@.erase(old(self)@.display_span(param)),
    {
        proof {
            lemma_row_bounds(self.cursor[1] as int, self.size[0] as int, self.size[1] as int);
        }
        let w = self.size[0] as usize;
        let start = (self.cursor[1] * self.size[0]) as usize;
        let all = self.buffer.len();
        if param == 0 {
            self.clear_range(start, all);
        } else if param == 1 {
            self.clear_range(0, start + w);
        } else if param == 2 {
            self.clear_range(0, all);
        }
    }

    /// Erase in line: from the cursor to the end of its row (0), from the
    /// row's start through the cursor (1), or the whole row (2); any other
    /// parameter does nothing.
    pub fn erase_line(&mut self, param: i32)
        requires
            old(self).wf(),
        ensures
            final(self).wf(),
            final(self)@ == old(self)@.erase(old(self)@.line_span(param)),
    {
        proof {
            lemma_row_bounds(self.cursor[1] as int, self.size[0] as int, self.size[1] as int);
        }
        let w = self.size[0] as usize;
        let cx = self.cursor[0] as usize;
        let start = (self.cursor[1] * self.size[0]) as usize;
        if param == 0 {
            self.clear_range(start + cx, start + w);
        } else if param == 1 {
            self.clear_range(start, start + cx + 1);
        } else if param == 2 {
            self.clear_range(start, start + w);
        }
    }

    /// The cursor position report `ESC [ row ; column R` (zero-based), for
    /// the request with parameter 6; `None` for any other.
    pub fn report_cursor(&self, param: i32) -> (r: Option<Vec<u8>>)
        requires
            self.wf(),
        ensures
            param != 6 ==> r is None,
            param == 6 ==> (r matches Some(v) && v@ == seq![27u8, 91u8] + decimal(
                self@.cursor.1 as nat,
            ) + seq![59u8] + decimal(self@.cursor.0 as nat) + seq![82u8]),
    {
        if param != 6 {
            return None;
        }
        let mut report: Vec<u8> = Vec::new();
        report.push(27u8);
        report.push(91u8);
        push_decimal(&mut report, self.cursor[1] as u32);
        report.push(59u8);
        push_decimal(&mut report, self.cursor[0] as u32);
        report.push(82u8);
        assert(report@ =~= seq![27u8, 91u8] + decimal(self@.cursor.1 as nat) + seq![59u8]
            + decimal(self@.cursor.0 as nat) + seq![82u8]);
        Some(report)
    }

    pub fn get_size(&self) -> (r: [i32; 2])
        ensures
            r[0] == self@.width,
            r[1] == self@.height,
    {
        self.size
    }

    /// The positions, row by row, and the cursor.
    pub fn get_render_data(&self) -> (r: (&Vec<Glyph>, [i32; 2]))
        ensures
            r.0@ == self@.cells,
            r.1[0] == self@.cursor.0,
            r.1[1] == self@.cursor.1,
    {
        (&self.buffer, self.cursor)
    }
}

/// Appends the decimal digits of `n`.
fn push_decimal(out: &mut Vec<u8>, n: u32)
    ensures
        final(out)@ == old(out)@ + decimal(n as nat),
    decreases n,
{
    if n >= 10 {
        push_decimal(out, n / 10);
    }
    out.push(48u8 + (n % 10) as u8);
    assert(final(out)@ =~= old(out)@ + decimal(n as nat));
}

} // verus!
