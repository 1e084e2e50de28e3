use vstd::prelude::*;

use crate::cell::Cell;
use crate::msg::{MsgView, VkotMsg};
use crate::region::Region;

verus! {

/// The mathematical value of a screen: its size in columns and rows, its
/// rows of cells, and the cursor.
pub struct Screen {
    pub width: int,
    pub height: int,
    pub cells: Seq<Seq<Cell>>,
    pub cursor: (i16, i16),
}

pub open spec fn blank_cells(w: int, h: int) -> Seq<Seq<Cell>> {
    Seq::new(h as nat, |y: int| Seq::new(w as nat, |x: int| Cell::blank()))
}

/// `cells` cut or grown to `w` columns and `h` rows: surviving positions
/// keep their cell, new positions are blank.
pub open spec fn resized_cells(cells: Seq<Seq<Cell>>, w: int, h: int) -> Seq<Seq<Cell>> {
    Seq::new(
        h as nat,
        |y: int|
            Seq::new(
                w as nat,
                |x: int|
                    if y < cells.len() && x < cells[y].len() {
                        cells[y][x]
                    } else {
                        Cell::blank()
                    },
            ),
    )
}

impl Screen {
    pub open spec fn wf(self) -> bool {
        &&& 0 <= self.width <= i16::MAX
        &&& 0 <= self.height <= i16::MAX
        &&& self.cells.len() == self.height
        &&& forall|y: int| 0 <= y < self.height ==> #[trigger] self.cells[y].len() == self.width
    }

    pub open spec fn on_screen(self, x: int, y: int) -> bool {
        0 <= x < self.width && 0 <= y < self.height
    }

    /// `r` clamped to this screen.
    pub open spec fn clip(self, r: Region) -> Region {
        r.clip(self.width, self.height)
    }

    /// Every position for which `f` gives a cell takes that cell.
    pub open spec fn paint(self, f: spec_fn(int, int) -> Option<Cell>) -> Screen {
        Screen {
            cells: Seq::new(
                self.height as nat,
                |y: int|
                    Seq::new(
                        self.width as nat,
                        |x: int|
                            match f(x, y) {
                                Some(c) => c,
                                None => self.cells[y][x],
                            },
                    ),
            ),
            ..self
        }
    }

    /// The screen after a client-to-server message. `Put` outside the screen
    /// changes nothing; `Blit` and `Fill` touch only the positions of their
    /// region that are on the screen, and `Blit` takes the cell of each such
    /// position from its place in the unclipped region.
    pub open spec fn apply(self, m: MsgView) -> Screen {
        match m {
            MsgView::Cursor(x, y) => Screen { cursor: (x, y), ..self },
            MsgView::Put(px, py, c) => self.paint(
                |x: int, y: int|
                    if x == px && y == py && self.on_screen(x, y) {
                        Some(c)
                    } else {
                        None
                    },
            ),
            MsgView::Fill(r, c) => self.paint(
                |x: int, y: int|
                    if self.clip(r).contains(x, y) {
                        Some(c)
                    } else {
                        None
                    },
            ),
            MsgView::Blit(r, cs) => self.paint(
                |x: int, y: int|
                    if self.clip(r).contains(x, y) {
                        Some(cs[(y - r.top) * (r.right - r.left) + (x - r.left)])
                    } else {
                        None
                    },
            ),
            _ => self,
        }
    }
}

/// The grid of cells that clients draw on, with the cursor they place.
/// The cursor is kept as given, on the screen or not; nothing indexes
/// cells by it.
pub struct Console {
    size: [i16; 2],
    buffer: Vec<Vec<Cell>>,  // row first
    cpos: [i16; 2],
}

impl View for Console {
    type V = Screen;

    closed spec fn view(&self) -> Screen {
        Screen {
            width: self.size[0] as int,
            height: self.size[1] as int,
            cells: self.buffer@.map_values(|row: Vec<Cell>| row@),
            cursor: (self.cpos[0], self.cpos[1]),
        }
    }
}

impl Console {
    pub closed spec fn wf(&self) -> bool {
        &&& self.size[0] >= 0
        &&& self.size[1] >= 0
        &&& self.buffer@.len() == self.size[1]
        &&& forall|y: int| 0 <= y < self.size[1] ==> #[trigger] self.buffer@[y]@.len() == self.size[0]
    }

    pub proof fn lemma_wf(&self)
        requires
            self.wf(),
        ensures
            self@.wf(),
    {
        assert forall|y: int| 0 <= y < self@.height implies #[trigger] self@.cells[y].len() == self@.width by {
            assert(self@.cells[y] == self.buffer@[y]@);
        }
    }

    fn blank_buffer(w: i16, h: i16) -> (r: Vec<Vec<Cell>>)
        requires
            w >= 0,
            h >= 0,
        ensures
            r@.map_values(|row: Vec<Cell>| row@) == blank_cells(w as int, h as int),
            r@.len() == h,
            forall|y: int| 0 <= y < h ==> #[trigger] r@[y]@.len() == w,
    {
        let mut rows: Vec<Vec<Cell>> = Vec::new();
        let mut y: i16 = 0;
        while y < h
            invariant
                0 <= y <= h,
                w >= 0,
                rows@.len() == y,
                forall|j: int| 0 <= j < y ==> #[trigger] rows@[j]@ == Seq::new(w as nat, |x: int| Cell::blank()),
            decreases h - y,
        {
            let mut row: Vec<Cell> = Vec::new();
            let mut x: i16 = 0;
            while x < w
                invariant
                    0 <= x <= w,
                    row@ == Seq::new(x as nat, |i: int| Cell::blank()),
                decreases w - x,
            {
                row.push(Cell::default());
                x = x + 1;
                assert(row@ =~= Seq::new(x as nat, |i: int| Cell::blank()));
            }
            assert(row@ =~= Seq::new(w as nat, |i: int| Cell::blank()));
            rows.push(row);
            y = y + 1;
        }
        assert(rows@.map_values(|row: Vec<Cell>| row@) =~= blank_cells(w as int, h as int));
        rows
    }

    /// A blank screen of `size` columns and rows, cursor at the origin.
    pub fn new(size: [i16; 2]) -> (r: Console)
        requires
            size[0] >= 0,
            size[1] >= 0,
        ensures
            r.wf(),
            r@ == (Screen {
                width: size[0] as int,
                height: size[1] as int,
                cells: blank_cells(size[0] as int, size[1] as int),
                cursor: (0, 0),
            }),
    {
        let buffer = Console::blank_buffer(size[0], size[1]);
        Console { size, buffer, cpos: [0, 0] }
    }

    /// Cuts or grows the grid to `size`: surviving positions keep their
    /// cells, new ones are blank; the cursor stays where it was.
    pub fn resize(&mut self, size: [i16; 2])
        requires
            old(self).wf(),
            size[0] >= 0,
            size[1] >= 0,
        ensures
            final(self).wf(),
            final(self)@ == (Screen {
                width: size[0] as int,
                height: size[1] as int,
                cells: resized_cells(old(self)@.cells, size[0] as int, size[1] as int),
                cursor: old(self)@.cursor,
            }),
    {
        let ghost before = self@.cells;
        let (w, h) = (size[0], size[1]);
        let mut rows: Vec<Vec<Cell>> = Vec::new();
        let mut y: i16 = 0;
        while y < h
            invariant
                0 <= y <= h,
                h == size[1],
                w == size[0],
                w >= 0,
                self.wf(),
                before == self@.cells,
                rows@.len() == y,
                forall|j: int| 0 <= j < y ==> #[trigger] rows@[j]@ == resized_cells(before, w as int, h as int)[j],
            decreases h - y,
        {
            let mut row: Vec<Cell> = Vec::new();
            let mut x: i16 = 0;
            while x < w
                invariant
                    0 <= x <= w,
                    0 <= y < h,
                    self.wf(),
                    before == self@.cells,
                    row@ == resized_cells(before, w as int, h as int)[y as int].take(x as int),
                decreases w - x,
            {
                let c = if y < self.size[1] && x < self.size[0] {
                    assert(before[y as int] == self.buffer@[y as int]@);
                    self.buffer[y as usize][x as usize]
                } else {
                    Cell::default()
                };
                row.push(c);
                x = x + 1;
                assert(row@ =~= resized_cells(before, w as int, h as int)[y as int].take(x as int));
            }
            assert(row@ =~= resized_cells(before, w as int, h as int)[y as int]);
            rows.push(row);
            y = y + 1;
        }
        assert(rows@.map_values(|row: Vec<Cell>| row@) =~= resized_cells(before, w as int, h as int));
        self.buffer = rows;
        self.size = size;
    }

    fn pos_test(&self, pos: [i16; 2]) -> (r: bool)
        ensures
            r == (0 <= pos[0] < self.size[0] && 0 <= pos[1] < self.size[1]),
    {
        let (px, py) = (pos[0], pos[1]);
        if px < 0 || py < 0 {
            return false;
        }
        if px >= self.size[0] {
            return false;
        }
        if py >= self.size[1] {
            return false;
        }
        true
    }

    fn setchar_checked(&mut self, pos: [i16; 2], cell: Cell)
        requires
            old(self).wf(),
        ensures
            final(self).wf(),
            final(self).size == old(self).size,
            final(self).cpos == old(self).cpos,
            forall|y: int| 0 <= y < old(self).size[1] ==> #[trigger] final(self).buffer@[y]@ == (
                if y == pos[1] && 0 <= pos[0] < old(self).size[0] {
                    old(self).buffer@[y]@.update(pos[0] as int, cell)
                } else {
                    old(self).buffer@[y]@
                }),
    {
        if !self.pos_test(pos) {
            return;
        }
        self.buffer[pos[1] as usize][pos[0] as usize] = cell;
    }

    /// Clamps `region` to the screen; `true` when something is left of it.
    fn fit_region(&self, region: &mut Region) -> (r: bool)
        ensures
            *final(region) == old(region).clip(self.size[0] as int, self.size[1] as int),
            r == !final(region).empty_spec(),
    {
        *region = region.intersect(self.size);
        !region.is_empty()
    }

    /// Writes `cell` over every position of `clip`, which lies on the screen.
    fn fill_clipped(&mut self, clip: Region, cell: Cell)
        requires
            old(self).wf(),
            0 <= clip.left,
            clip.right <= old(self).size[0],
            0 <= clip.top,
            clip.bottom <= old(self).size[1],
        ensures
            final(self).wf(),
            final(self).size == old(self).size,
            final(self).cpos == old(self).cpos,
            forall|x: int, y: int|
                0 <= y < old(self).size[1] && 0 <= x < old(self).size[0] ==> #[trigger] final(self).buffer@[y]@[x] == if clip.contains(x, y) {
                    cell
                } else {
                    old(self).buffer@[y]@[x]
                },
    {
        let ghost before = self.buffer@.map_values(|row: Vec<Cell>| row@);
        let ghost (w, h) = (self.size[0] as int, self.size[1] as int);
        let ghost size0 = self.size;
        let ghost cpos0 = self.cpos;
        let mut py: i16 = clip.top;
        if clip.bottom <= clip.top {
            return;
        }
        while py < clip.bottom
            invariant
                clip.top <= py <= clip.bottom,
                0 <= clip.left,
                clip.right <= w,
                0 <= clip.top,
                clip.bottom <= h,
                self.wf(),
                self.size == size0,
                self.cpos == cpos0,
                w == self.size[0],
                h == self.size[1],
                before.len() == h,
                forall|y: int| 0 <= y < h ==> #[trigger] before[y].len() == w,
                forall|x: int, y: int|
                    0 <= y < h && 0 <= x < w ==> #[trigger] self.buffer@[y]@[x] == if clip.contains(x, y) && y < py {
                        cell
                    } else {
                        before[y][x]
                    },
            decreases clip.bottom - py,
        {
            let mut px: i16 = clip.left;
            while px < clip.right
                invariant
                    clip.top <= py < clip.bottom,
                    clip.left <= px,
                    px <= clip.right || clip.right <= clip.left,
                    0 <= clip.left,
                    clip.right <= w,
                    0 <= clip.top,
                    clip.bottom <= h,
                    self.wf(),
                    self.size == size0,
                    self.cpos == cpos0,
                    w == self.size[0],
                    h == self.size[1],
                    before.len() == h,
                    forall|y: int| 0 <= y < h ==> #[trigger] before[y].len() == w,
                    forall|x: int, y: int|
                        0 <= y < h && 0 <= x < w ==> #[trigger] self.buffer@[y]@[x] == if clip.contains(x, y) && (y < py || (y == py && x < px)) {
                            cell
                        } else {
                            before[y][x]
                        },
                decreases clip.right - px,
            {
                let ghost prev = self.buffer@;
                self.setchar_checked([px, py], cell);
                assert forall|x: int, y: int| 0 <= y < h && 0 <= x < w implies #[trigger] self.buffer@[y]@[x]
                    == if clip.contains(x, y) && (y < py || (y == py && x < px + 1)) {
                    cell
                } else {
                    before[y][x]
                } by {
                    assert(prev[y]@.len() == w);
                }
                px = px + 1;
            }
            py = py + 1;
        }
    }

    /// Writes, over every position of `clip`, the cell of `cells` that
    /// stands at that position of `region`, row by row.
    fn blit_clipped(&mut self, region: Region, clip: Region, cells: &Vec<Cell>)
        requires
            old(self).wf(),
            cells@.len() == region.count(),
            0 <= clip.left,
            clip.right <= old(self).size[0],
            0 <= clip.top,
            clip.bottom <= old(self).size[1],
            clip.left < clip.right,
            clip.top < clip.bottom,
            region.left <= clip.left,
            clip.right <= region.right,
            region.top <= clip.top,
            clip.bottom <= region.bottom,
        ensures
            final(self).wf(),
            final(self).size == old(self).size,
            final(self).cpos == old(self).cpos,
            forall|x: int, y: int|
                0 <= y < old(self).size[1] && 0 <= x < old(self).size[0] ==> #[trigger] final(self).buffer@[y]@[x] == if clip.contains(x, y) {
                    cells@[(y - region.top) * (region.right - region.left) + (x - region.left)]
                } else {
                    old(self).buffer@[y]@[x]
                },
    {
        let ghost before = self.buffer@.map_values(|row: Vec<Cell>| row@);
        let ghost (w, h) = (self.size[0] as int, self.size[1] as int);
        let ghost size0 = self.size;
        let ghost cpos0 = self.cpos;
        let rw: usize = (region.right as i32 - region.left as i32) as usize;
        let ghost rh: int = region.bottom - region.top;
        assert(cells@.len() == rw * rh);
        let n = cells.len();
        let mut py: i16 = clip.top;
        while py < clip.bottom
            invariant
                clip.top <= py <= clip.bottom,
                0 <= clip.left < clip.right <= w,
                0 <= clip.top < clip.bottom <= h,
                region.left <= clip.left,
                clip.right <= region.right,
                region.top <= clip.top,
                clip.bottom <= region.bottom,
                rw == region.right - region.left,
                rh == region.bottom - region.top,
                cells@.len() == rw * rh,
                n == cells@.len(),
                self.wf(),
                self.size == size0,
                self.cpos == cpos0,
                w == self.size[0],
                h == self.size[1],
                before.len() == h,
                forall|y: int| 0 <= y < h ==> #[trigger] before[y].len() == w,
                forall|x: int, y: int|
                    0 <= y < h && 0 <= x < w ==> #[trigger] self.buffer@[y]@[x] == if clip.contains(x, y) && y < py {
                        cells@[(y - region.top) * rw + (x - region.left)]
                    } else {
                        before[y][x]
                    },
            decreases clip.bottom - py,
        {
            let mut px: i16 = clip.left;
            while px < clip.right
                invariant
                    clip.top <= py < clip.bottom,
                    clip.left <= px <= clip.right,
                    0 <= clip.left < clip.right <= w,
                    0 <= clip.top < clip.bottom <= h,
                    region.left <= clip.left,
                    clip.right <= region.right,
                    region.top <= clip.top,
                    clip.bottom <= region.bottom,
                    rw == region.right - region.left,
                    rh == region.bottom - region.top,
                    cells@.len() == rw * rh,
                    n == cells@.len(),
                n == cells@.len(),
                    self.wf(),
                    self.size == size0,
                    self.cpos == cpos0,
                    w == self.size[0],
                    h == self.size[1],
                    before.len() == h,
                    forall|y: int| 0 <= y < h ==> #[trigger] before[y].len() == w,
                    forall|x: int, y: int|
                        0 <= y < h && 0 <= x < w ==> #[trigger] self.buffer@[y]@[x] == if clip.contains(x, y) && (y < py || (y == py && x < px)) {
                            cells@[(y - region.top) * rw + (x - region.left)]
                        } else {
                            before[y][x]
                        },
                decreases clip.right - px,
            {
                let dy: usize = (py as i32 - region.top as i32) as usize;
                let dx: usize = (px as i32 - region.left as i32) as usize;
                assert(dy * rw + dx < rw * rh) by (nonlinear_arith)
                    requires
                        dy < rh,
                        dx < rw,
                ;
                let idx: usize = dy * rw + dx;
                let ghost prev = self.buffer@;
                self.setchar_checked([px, py], cells[idx]);
                assert forall|x: int, y: int| 0 <= y < h && 0 <= x < w implies #[trigger] self.buffer@[y]@[x]
                    == if clip.contains(x, y) && (y < py || (y == py && x < px + 1)) {
                    cells@[(y - region.top) * rw + (x - region.left)]
                } else {
                    before[y][x]
                } by {
                    assert(prev[y]@.len() == w);
                }
                px = px + 1;
            }
            py = py + 1;
        }
    }

    /// The cells of this console equal those of `target` wherever the
    /// buffer says so position by position.
    proof fn lemma_cells_eq(&self, target: Screen)
        requires
            self.wf(),
            target.wf(),
            target.width == self.size[0],
            target.height == self.size[1],
            target.cursor == (self.cpos[0], self.cpos[1]),
            forall|x: int, y: int|
                0 <= y < self.size[1] && 0 <= x < self.size[0] ==> #[trigger] self.buffer@[y]@[x]
                    == target.cells[y][x],
        ensures
            self@ == target,
    {
        self.lemma_wf();
        assert forall|y: int| 0 <= y < target.height implies #[trigger] self@.cells[y] =~= target.cells[y] by {
            assert(self@.cells[y] == self.buffer@[y]@);
            assert forall|x: int| 0 <= x < target.width implies self@.cells[y][x] == target.cells[y][x] by {
                assert(self.buffer@[y]@[x] == target.cells[y][x]);
            }
        }
        assert(self@.cells =~= target.cells);
    }

    /// Applies one client-to-server message; any other message changes
    /// nothing.
    pub fn handle_msg(&mut self, msg: VkotMsg)
        requires
            old(self).wf(),
            msg@.wf(),
        ensures
            final(self).wf(),
            final(self)@ == old(self)@.apply(msg@),
    {
        proof {
            self.lemma_wf();
        }
        let ghost start = self@;
        let ghost m = msg@;
        match msg {
            VkotMsg::Cursor(pos) => {
                self.cpos = pos;
                assert(self@.cells == start.cells);
            },
            VkotMsg::Put(pos, cell) => {
                let ghost prev = self.buffer@;
                self.setchar_checked(pos, cell);
                proof {
                    let target = start.apply(m);
                    assert forall|x: int, y: int|
                        0 <= y < self.size[1] && 0 <= x < self.size[0] implies #[trigger] self.buffer@[y]@[x]
                        == target.cells[y][x] by {
                        assert(start.cells[y] == prev[y]@);
                    }
                    self.lemma_cells_eq(target);
                }
            },
            VkotMsg::Blit(region, cells) => {
                let mut clip = region;
                if !self.fit_region(&mut clip) {
                    proof {
                        let target = start.apply(m);
                        assert forall|x: int, y: int|
                            0 <= y < self.size[1] && 0 <= x < self.size[0] implies #[trigger] self.buffer@[y]@[x]
                            == target.cells[y][x] by {
                            assert(start.cells[y] == self.buffer@[y]@);
                        }
                        self.lemma_cells_eq(target);
                    }
                    return;
                }
                let ghost prev = self.buffer@;
                self.blit_clipped(region, clip, &cells);
                proof {
                    let target = start.apply(m);
                    assert forall|x: int, y: int|
                        0 <= y < self.size[1] && 0 <= x < self.size[0] implies #[trigger] self.buffer@[y]@[x]
                        == target.cells[y][x] by {
                        assert(start.cells[y] == prev[y]@);
                    }
                    self.lemma_cells_eq(target);
                }
            },
            VkotMsg::Fill(region, cell) => {
                let mut clip = region;
                self.fit_region(&mut clip);
                let ghost prev = self.buffer@;
                self.fill_clipped(clip, cell);
                proof {
                    let target = start.apply(m);
                    assert forall|x: int, y: int|
                        0 <= y < self.size[1] && 0 <= x < self.size[0] implies #[trigger] self.buffer@[y]@[x]
                        == target.cells[y][x] by {
                        assert(start.cells[y] == prev[y]@);
                    }
                    self.lemma_cells_eq(target);
                }
            },
            _ => {},
        }
    }

    /// The rows of cells, top row first.
    pub fn get_buffer(&self) -> (r: &[Vec<Cell>])
        requires
            self.wf(),
        ensures
            r@.len() == self@.height,
            forall|y: int| 0 <= y < r@.len() ==> #[trigger] r@[y]@ == self@.cells[y],
    {
        self.buffer.as_slice()
    }

    pub fn get_cpos(&self) -> (r: [i16; 2])
        ensures
            (r[0], r[1]) == self@.cursor,
    {
        self.cpos
    }

    pub fn get_size(&self) -> (r: [i16; 2])
        ensures
            r[0] == self@.width,
            r[1] == self@.height,
    {
        self.size
    }
}

/// Filling a region twice leaves the screen as filling it once.
pub proof fn lemma_fill_idempotent(s: Screen, r: Region, c: Cell)
    requires
        s.wf(),
    ensures
        s.apply(MsgView::Fill(r, c)).apply(MsgView::Fill(r, c)) == s.apply(MsgView::Fill(r, c)),
{
    let once = s.apply(MsgView::Fill(r, c));
    let twice = once.apply(MsgView::Fill(r, c));
    assert forall|y: int| 0 <= y < s.height implies #[trigger] twice.cells[y] =~= once.cells[y] by {}
    assert(twice.cells =~= once.cells);
}

/// A `Put` at a position off the screen changes nothing.
pub proof fn lemma_put_off_screen(s: Screen, x: i16, y: i16, c: Cell)
    requires
        s.wf(),
        !s.on_screen(x as int, y as int),
    ensures
        s.apply(MsgView::Put(x, y, c)) == s,
{
    let t = s.apply(MsgView::Put(x, y, c));
    assert forall|j: int| 0 <= j < s.height implies #[trigger] t.cells[j] =~= s.cells[j] by {}
    assert(t.cells =~= s.cells);
}

} // verus!
