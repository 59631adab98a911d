//! The simulation state: the cell buffer with its toroidal indexing, the
//! run/pause state, and the viewport transform (pixel offsets and scale) that
//! maps pointer coordinates to logical grid coordinates.

use vstd::prelude::*;
use vstd::arithmetic::div_mod::lemma_fundamental_div_mod_converse;
use crate::Cell;
use crate::State;
use crate::cell_bit;
use crate::transition;
use crate::next_cell_value;

verus! {

/// Pixel stride between adjacent cell origins on screen: a 10-pixel drawn
/// cell plus a 2-pixel gap.
pub const PITCH: i32 = 12;

/// Smallest value the scale accumulator may reach, in thousandths: 0.100.
pub const SCALE_FLOOR_MILLI: u32 = 100;

/// Initial scale, in thousandths: 1.000.
pub const SCALE_START_MILLI: u32 = 1000;

/// The grid plus its viewport transform.
///
/// `cells` is row-major: the cell at `(row, col)` lives at flat index
/// `row * width + col`.  `x_offset`/`y_offset` position the grid origin in
/// pixel space; `scale_milli` is a fixed-point (thousandths) zoom accumulator
/// clamped to stay strictly positive.
pub struct Universe {
    pub width: u32,
    pub height: u32,
    pub cells: Vec<Cell>,
    pub state: State,
    pub x_offset: i32,
    pub y_offset: i32,
    pub scale_milli: u32,
}

/// The deterministic seeding rule: the cell at flat index `i` starts `Alive`
/// iff `i` is divisible by 3 or by 7.
pub open spec fn seeded_cell(i: int) -> Cell {
    if i % 3 == 0 || i % 7 == 0 {
        Cell::Alive
    } else {
        Cell::Dead
    }
}

/// The 0/1 value of the cell at `(r, c)` in a row-major buffer of width `w`.
pub open spec fn bit_at(s: Seq<Cell>, w: int, r: int, c: int) -> int {
    cell_bit(s[r * w + c])
}

/// Toroidal predecessor of `i` in `[0, n)`.
pub open spec fn wrap_dec(i: int, n: int) -> int {
    (i + n - 1) % n
}

/// Toroidal successor of `i` in `[0, n)`.
pub open spec fn wrap_inc(i: int, n: int) -> int {
    (i + 1) % n
}

/// Number of live cells among the eight toroidally-wrapped neighbors of
/// `(r, c)` in a row-major buffer of width `w` and height `h`.
pub open spec fn neighbor_count_spec(s: Seq<Cell>, w: int, h: int, r: int, c: int) -> int {
    let rm = wrap_dec(r, h);
    let rp = wrap_inc(r, h);
    let cm = wrap_dec(c, w);
    let cp = wrap_inc(c, w);
    bit_at(s, w, rm, cm) + bit_at(s, w, rm, c) + bit_at(s, w, rm, cp) + bit_at(s, w, r, cm)
        + bit_at(s, w, r, cp) + bit_at(s, w, rp, cm) + bit_at(s, w, rp, c) + bit_at(s, w, rp, cp)
}

/// One synchronous generation: every cell of the result is the transition of
/// the corresponding cell of `s`, computed from `s` alone.
pub open spec fn step_seq(s: Seq<Cell>, w: int, h: int) -> Seq<Cell> {
    Seq::new(s.len(), |i: int| transition(neighbor_count_spec(s, w, h, i / w, i % w), s[i]))
}

impl Universe {
    /// Structural invariant: positive dimensions, a buffer of exactly
    /// `width * height` cells, and a scale that never drops below its floor.
    pub open spec fn well_formed(self) -> bool {
        &&& 1 <= self.width
        &&& 1 <= self.height
        &&& self.width as int * self.height as int <= u32::MAX as int
        &&& self.cells@.len() == self.width as int * self.height as int
        &&& self.scale_milli >= SCALE_FLOOR_MILLI
    }

    /// Flat index of `(row, col)`.
    pub open spec fn spec_index_of(self, row: int, col: int) -> int {
        row * self.width as int + col
    }

    /// Build the seeded cell buffer of `len` cells.
    fn seed_cells(len: u32) -> (r: Vec<Cell>)
        ensures
            r@.len() == len as int,
            forall|i: int| 0 <= i < len as int ==> r@[i] == seeded_cell(i),
    {
        let mut cells: Vec<Cell> = Vec::new();
        let mut i: u32 = 0;
        while i < len
            invariant
                i <= len,
                cells@.len() == i as int,
                forall|j: int| 0 <= j < i as int ==> cells@[j] == seeded_cell(j),
            decreases len - i,
        {
            if i % 3 == 0 || i % 7 == 0 {
                cells.push(Cell::Alive);
            } else {
                cells.push(Cell::Dead);
            }
            i = i + 1;
        }
        cells
    }

    /// A fresh universe of the given dimensions, paused, with the origin
    /// viewport and the deterministic seed pattern.
    pub fn new(height: u32, width: u32) -> (r: Universe)
        requires
            1 <= width,
            1 <= height,
            width as int * height as int <= u32::MAX as int,
        ensures
            r.well_formed(),
            r.width == width,
            r.height == height,
            r.state == State::Paused,
            r.x_offset == 0,
            r.y_offset == 0,
            r.scale_milli == SCALE_START_MILLI,
            forall|i: int| 0 <= i < r.cells@.len() ==> r.cells@[i] == seeded_cell(i),
    {
        let len: u64 = width as u64 * height as u64;
        let cells = Self::seed_cells(len as u32);
        Universe {
            width,
            height,
            cells,
            state: State::Paused,
            x_offset: 0,
            y_offset: 0,
            scale_milli: SCALE_START_MILLI,
        }
    }

    /// Checked construction: rejects dimensions that are zero or whose cell
    /// count would not fit the flat index type, instead of failing later in
    /// wraparound arithmetic.
    pub fn try_new(height: u32, width: u32) -> (r: Option<Universe>)
        ensures
            r is Some <==> (1 <= width && 1 <= height && width as int * height as int
                <= u32::MAX as int),
            r is Some ==> {
                let u = r->Some_0;
                &&& u.well_formed()
                &&& u.width == width
                &&& u.height == height
                &&& u.state == State::Paused
                &&& u.x_offset == 0
                &&& u.y_offset == 0
                &&& u.scale_milli == SCALE_START_MILLI
                &&& forall|i: int| 0 <= i < u.cells@.len() ==> u.cells@[i] == seeded_cell(i)
            },
    {
        proof {
            let w = width as int;
            let h = height as int;
            let m = u32::MAX as int;
            assert(w * h <= m * m) by (nonlinear_arith)
                requires
                    0 <= w <= m,
                    0 <= h <= m,
            ;
        }
        if width >= 1 && height >= 1 && width as u64 * height as u64 <= u32::MAX as u64 {
            Some(Self::new(height, width))
        } else {
            None
        }
    }

    /// Flat index of a valid `(row, col)` pair.
    fn get_index(&self, row: u32, col: u32) -> (r: usize)
        requires
            self.well_formed(),
            row < self.height,
            col < self.width,
        ensures
            r as int == self.spec_index_of(row as int, col as int),
            r < self.cells@.len(),
    {
        proof {
            let r = row as int;
            let c = col as int;
            let w = self.width as int;
            let h = self.height as int;
            assert(r * w + c < w * h) by (nonlinear_arith)
                requires
                    0 <= r,
                    0 <= c,
                    r < h,
                    c < w,
                    1 <= w,
            ;
        }
        (row as u64 * self.width as u64 + col as u64) as usize
    }

    /// Toroidal predecessor of a coordinate, without signed underflow.
    fn wrap_dec_exec(i: u32, n: u32) -> (r: u32)
        requires
            1 <= n,
            i < n,
        ensures
            r as int == wrap_dec(i as int, n as int),
            r < n,
    {
        proof {
            let ii = i as int;
            let nn = n as int;
            if ii == 0 {
                vstd::arithmetic::div_mod::lemma_small_mod((nn - 1) as nat, nn as nat);
            } else {
                vstd::arithmetic::div_mod::lemma_mod_multiples_vanish(1, ii - 1, nn);
                vstd::arithmetic::div_mod::lemma_small_mod((ii - 1) as nat, nn as nat);
            }
        }
        if i == 0 {
            n - 1
        } else {
            i - 1
        }
    }

    /// Toroidal successor of a coordinate.
    fn wrap_inc_exec(i: u32, n: u32) -> (r: u32)
        requires
            1 <= n,
            i < n,
        ensures
            r as int == wrap_inc(i as int, n as int),
            r < n,
    {
        proof {
            let ii = i as int;
            let nn = n as int;
            if ii == nn - 1 {
                vstd::arithmetic::div_mod::lemma_mod_multiples_vanish(1, 0, nn);
                vstd::arithmetic::div_mod::lemma_small_mod(0, nn as nat);
            } else {
                vstd::arithmetic::div_mod::lemma_small_mod((ii + 1) as nat, nn as nat);
            }
        }
        if i == n - 1 {
            0
        } else {
            i + 1
        }
    }

    /// The 0/1 value of the cell at a valid `(row, col)`.
    fn cell_bit_at(&self, row: u32, col: u32) -> (r: u8)
        requires
            self.well_formed(),
            row < self.height,
            col < self.width,
        ensures
            r as int == bit_at(self.cells@, self.width as int, row as int, col as int),
            r <= 1,
    {
        let i = self.get_index(row, col);
        self.cells[i].bit()
    }

    /// Count the live cells among the eight toroidally-wrapped neighbors of
    /// `(row, col)`.  The wrap uses modular arithmetic on unsigned
    /// coordinates, so a row or column of 0 wraps to the opposite edge
    /// without underflow.
    pub fn get_live_neighbors(&self, row: u32, col: u32) -> (r: u8)
        requires
            self.well_formed(),
            row < self.height,
            col < self.width,
        ensures
            r as int == neighbor_count_spec(
                self.cells@,
                self.width as int,
                self.height as int,
                row as int,
                col as int,
            ),
            r <= 8,
    {
        let rm = Self::wrap_dec_exec(row, self.height);
        let rp = Self::wrap_inc_exec(row, self.height);
        let cm = Self::wrap_dec_exec(col, self.width);
        let cp = Self::wrap_inc_exec(col, self.width);
        let mut count: u8 = 0;
        count = count + self.cell_bit_at(rm, cm);
        count = count + self.cell_bit_at(rm, col);
        count = count + self.cell_bit_at(rm, cp);
        count = count + self.cell_bit_at(row, cm);
        count = count + self.cell_bit_at(row, cp);
        count = count + self.cell_bit_at(rp, cm);
        count = count + self.cell_bit_at(rp, col);
        count = count + self.cell_bit_at(rp, cp);
        count
    }

    /// Advance the simulation by one generation while `Running`; a no-op
    /// while `Paused`.  Every cell of the new buffer is computed from the
    /// entire unmodified previous buffer (a fresh buffer is filled and then
    /// swapped in), so the grid is never observable in a partially-updated
    /// state.
    pub fn tick(&mut self)
        requires
            old(self).well_formed(),
        ensures
            final(self).well_formed(),
            final(self).width == old(self).width,
            final(self).height == old(self).height,
            final(self).state == old(self).state,
            final(self).x_offset == old(self).x_offset,
            final(self).y_offset == old(self).y_offset,
            final(self).scale_milli == old(self).scale_milli,
            old(self).state == State::Paused ==> final(self).cells@ == old(self).cells@,
            old(self).state == State::Running ==> final(self).cells@ == step_seq(
                old(self).cells@,
                old(self).width as int,
                old(self).height as int,
            ),
    {
        match self.state {
            State::Paused => {},
            State::Running => {
                let w = self.width;
                let h = self.height;
                let ghost s = self.cells@;
                let mut next: Vec<Cell> = Vec::new();
                let mut row: u32 = 0;
                while row < h
                    invariant
                        self.well_formed(),
                        *self == *old(self),
                        w == self.width,
                        h == self.height,
                        s == self.cells@,
                        row <= h,
                        next@.len() == row as int * w as int,
                        forall|i: int| 0 <= i < next@.len() ==> next@[i] == #[trigger] step_seq(
                            s,
                            w as int,
                            h as int,
                        )[i],
                    decreases h - row,
                {
                    let mut col: u32 = 0;
                    proof {
                        let r = row as int;
                        let ww = w as int;
                        let hh = h as int;
                        assert((r + 1) * ww <= hh * ww) by (nonlinear_arith)
                            requires
                                r < hh,
                                0 <= ww,
                        ;
                    }
                    while col < w
                        invariant
                            self.well_formed(),
                            *self == *old(self),
                            w == self.width,
                            h == self.height,
                            s == self.cells@,
                            row < h,
                            col <= w,
                            next@.len() == row as int * w as int + col as int,
                            (row as int + 1) * w as int <= h as int * w as int,
                            forall|i: int| 0 <= i < next@.len() ==> next@[i]
                                == #[trigger] step_seq(s, w as int, h as int)[i],
                        decreases w - col,
                    {
                        let n = self.get_live_neighbors(row, col);
                        let i = self.get_index(row, col);
                        let cur = self.cells[i];
                        proof {
                            let idx = row as int * w as int + col as int;
                            lemma_fundamental_div_mod_converse(
                                idx,
                                w as int,
                                row as int,
                                col as int,
                            );
                            assert(idx < s.len()) by (nonlinear_arith)
                                requires
                                    idx == row as int * w as int + col as int,
                                    (row as int + 1) * w as int <= h as int * w as int,
                                    s.len() == w as int * h as int,
                                    0 <= (col as int) < (w as int),
                                    0 <= row as int,
                            ;
                        }
                        next.push(next_cell_value(n, cur));
                        col = col + 1;
                    }
                    proof {
                        let r = row as int;
                        let ww = w as int;
                        assert((r + 1) * ww == r * ww + ww) by (nonlinear_arith);
                    }
                    row = row + 1;
                }
                proof {
                    let ww = w as int;
                    let hh = h as int;
                    assert(hh * ww == ww * hh) by (nonlinear_arith);
                    assert(next@ =~= step_seq(s, ww, hh));
                }
                self.cells = next;
            },
        }
    }

    /// Flip between `Running` and `Paused`; the cells are untouched.
    pub fn toggle_state(&mut self)
        ensures
            *final(self) == (Universe { state: old(self).state.spec_toggled(), ..*old(self) }),
    {
        self.state = self.state.toggle();
    }

    /// Force the `Paused` state; the cells are untouched.
    pub fn pause(&mut self)
        ensures
            *final(self) == (Universe { state: State::Paused, ..*old(self) }),
    {
        self.state = State::Paused;
    }

    /// Force the `Running` state; the cells are untouched.
    pub fn run(&mut self)
        ensures
            *final(self) == (Universe { state: State::Running, ..*old(self) }),
    {
        self.state = State::Running;
    }

    /// Re-apply the deterministic seed pattern to the existing buffer.  The
    /// run state and the viewport are left as they are.
    pub fn reset(&mut self)
        requires
            old(self).well_formed(),
        ensures
            final(self).well_formed(),
            final(self).width == old(self).width,
            final(self).height == old(self).height,
            final(self).state == old(self).state,
            final(self).x_offset == old(self).x_offset,
            final(self).y_offset == old(self).y_offset,
            final(self).scale_milli == old(self).scale_milli,
            final(self).cells@.len() == old(self).cells@.len(),
            forall|i: int| 0 <= i < final(self).cells@.len() ==> final(self).cells@[i]
                == seeded_cell(i),
    {
        let len = self.cells.len();
        self.cells = Self::seed_cells(len as u32);
    }

    /// Write `value` at `(row, col)` if the pair is in range; out-of-range
    /// coordinates are silently absorbed, never a fault.
    pub fn set_cell(&mut self, row: u32, col: u32, alive: bool)
        requires
            old(self).well_formed(),
        ensures
            final(self).well_formed(),
            final(self).width == old(self).width,
            final(self).height == old(self).height,
            final(self).state == old(self).state,
            final(self).x_offset == old(self).x_offset,
            final(self).y_offset == old(self).y_offset,
            final(self).scale_milli == old(self).scale_milli,
            row < old(self).height && col < old(self).width ==> final(self).cells@
                == old(self).cells@.update(
                old(self).spec_index_of(row as int, col as int),
                if alive { Cell::Alive } else { Cell::Dead },
            ),
            !(row < old(self).height && col < old(self).width) ==> final(self).cells@
                == old(self).cells@,
    {
        if row < self.height && col < self.width {
            let i = self.get_index(row, col);
            let v = if alive { Cell::Alive } else { Cell::Dead };
            self.cells[i] = v;
        }
    }

    /// Column that a pixel abscissa resolves to: the floor of
    /// `(x - x_offset) / PITCH` (negative when the pixel lies left of the
    /// grid origin).
    pub open spec fn resolved_col(self, x: int) -> int {
        (x - self.x_offset as int) / (PITCH as int)
    }

    /// Row that a pixel ordinate resolves to.
    pub open spec fn resolved_row(self, y: int) -> int {
        (y - self.y_offset as int) / (PITCH as int)
    }

    /// Whether a pixel position falls on some cell of the grid.
    pub open spec fn pixel_in_grid(self, x: int, y: int) -> bool {
        &&& 0 <= self.resolved_col(x)
        &&& self.resolved_col(x) < self.width as int
        &&& 0 <= self.resolved_row(y)
        &&& self.resolved_row(y) < self.height as int
    }

    /// Map a pointer pixel position to the `(row, col)` pair it falls on, or
    /// `None` when it lies outside the grid (including any negative
    /// intermediate value).  Total for every pair of pixel coordinates.
    pub fn pixel_to_cell(&self, x: i32, y: i32) -> (r: Option<(u32, u32)>)
        requires
            self.well_formed(),
        ensures
            self.pixel_in_grid(x as int, y as int) ==> r == Some(
                ((self.resolved_row(y as int) as u32), (self.resolved_col(x as int) as u32)),
            ),
            !self.pixel_in_grid(x as int, y as int) ==> r is None,
    {
        let dx: i64 = x as i64 - self.x_offset as i64;
        let dy: i64 = y as i64 - self.y_offset as i64;
        proof {
            lemma_floor_div_sign(dx as int);
            lemma_floor_div_sign(dy as int);
        }
        if dx < 0 || dy < 0 {
            return None;
        }
        let col: u64 = (dx as u64) / 12;
        let row: u64 = (dy as u64) / 12;
        if row < self.height as u64 && col < self.width as u64 {
            Some(((row as u32), (col as u32)))
        } else {
            None
        }
    }

    /// Accumulate a pan delta into the pixel offsets, with two's-complement
    /// wraparound at the ends of the offset range.
    pub fn shift(&mut self, x: i32, y: i32)
        ensures
            final(self).width == old(self).width,
            final(self).height == old(self).height,
            final(self).cells@ == old(self).cells@,
            final(self).state == old(self).state,
            final(self).scale_milli == old(self).scale_milli,
            final(self).x_offset as int == wrap_i32(old(self).x_offset as int + x as int),
            final(self).y_offset as int == wrap_i32(old(self).y_offset as int + y as int),
    {
        let sx: i64 = self.x_offset as i64 + x as i64;
        let sy: i64 = self.y_offset as i64 + y as i64;
        self.x_offset = Self::wrap_to_i32(sx);
        self.y_offset = Self::wrap_to_i32(sy);
    }

    /// Reduce a sum of two offset-range values back into offset range, as
    /// two's-complement addition would.
    fn wrap_to_i32(v: i64) -> (r: i32)
        requires
            2 * (i32::MIN as i64) <= v <= 2 * (i32::MAX as i64),
        ensures
            r as int == wrap_i32(v as int),
    {
        if v > i32::MAX as i64 {
            (v - 0x1_0000_0000) as i32
        } else if v < i32::MIN as i64 {
            (v + 0x1_0000_0000) as i32
        } else {
            v as i32
        }
    }

    /// Add a zoom delta (in thousandths) to the scale accumulator, clamped so
    /// that the scale never drops below its positive floor and never exceeds
    /// the accumulator's range.
    pub fn increment_scale(&mut self, delta_milli: i32)
        requires
            old(self).well_formed(),
        ensures
            final(self).well_formed(),
            final(self).width == old(self).width,
            final(self).height == old(self).height,
            final(self).cells@ == old(self).cells@,
            final(self).state == old(self).state,
            final(self).x_offset == old(self).x_offset,
            final(self).y_offset == old(self).y_offset,
            final(self).scale_milli as int == clamped_scale(
                old(self).scale_milli as int + delta_milli as int,
            ),
            final(self).scale_milli >= SCALE_FLOOR_MILLI,
    {
        let s: i64 = self.scale_milli as i64 + delta_milli as i64;
        self.scale_milli = if s < SCALE_FLOOR_MILLI as i64 {
            SCALE_FLOOR_MILLI
        } else if s > u32::MAX as i64 {
            u32::MAX
        } else {
            s as u32
        };
    }

    /// The cell at a valid `(row, col)` pair.
    pub fn get_cell(&self, row: u32, col: u32) -> (r: Cell)
        requires
            self.well_formed(),
            row < self.height,
            col < self.width,
        ensures
            r == self.cells@[self.spec_index_of(row as int, col as int)],
    {
        let i = self.get_index(row, col);
        self.cells[i]
    }

    /// A copy of the whole cell buffer, row-major.
    pub fn snapshot(&self) -> (r: Vec<Cell>)
        ensures
            r@ == self.cells@,
    {
        let mut out: Vec<Cell> = Vec::new();
        let mut i: usize = 0;
        while i < self.cells.len()
            invariant
                i <= self.cells@.len(),
                out@ == self.cells@.subrange(0, i as int),
            decreases self.cells@.len() - i,
        {
            out.push(self.cells[i]);
            proof {
                assert(out@ =~= self.cells@.subrange(0, i + 1));
            }
            i = i + 1;
        }
        proof {
            assert(out@ =~= self.cells@);
        }
        out
    }

    /// The screen rectangle origin and value of every cell, row-major: the
    /// cell at `(row, col)` is drawn with its origin at
    /// `(x_offset + PITCH * col, y_offset + PITCH * row)`.  The host draws
    /// from this list; the grid itself never touches the screen.
    pub fn render_cells(&self) -> (r: Vec<(i64, i64, Cell)>)
        requires
            self.well_formed(),
        ensures
            r@.len() == self.cells@.len(),
            forall|i: int| 0 <= i < r@.len() ==> {
                &&& #[trigger] r@[i].0 as int == self.x_offset as int + PITCH as int * (
                i % self.width as int)
                &&& r@[i].1 as int == self.y_offset as int + PITCH as int * (
                i / self.width as int)
                &&& r@[i].2 == self.cells@[i]
            },
    {
        let w = self.width;
        let h = self.height;
        let mut out: Vec<(i64, i64, Cell)> = Vec::new();
        let mut row: u32 = 0;
        while row < h
            invariant
                self.well_formed(),
                w == self.width,
                h == self.height,
                row <= h,
                out@.len() == row as int * w as int,
                forall|i: int| 0 <= i < out@.len() ==> {
                    &&& #[trigger] out@[i].0 as int == self.x_offset as int + PITCH as int * (
                    i % w as int)
                    &&& out@[i].1 as int == self.y_offset as int + PITCH as int * (i / w as int)
                    &&& out@[i].2 == self.cells@[i]
                },
            decreases h - row,
        {
            let mut col: u32 = 0;
            while col < w
                invariant
                    self.well_formed(),
                    w == self.width,
                    h == self.height,
                    row < h,
                    col <= w,
                    out@.len() == row as int * w as int + col as int,
                    forall|i: int| 0 <= i < out@.len() ==> {
                        &&& #[trigger] out@[i].0 as int == self.x_offset as int + PITCH as int * (
                        i % w as int)
                        &&& out@[i].1 as int == self.y_offset as int + PITCH as int * (
                        i / w as int)
                        &&& out@[i].2 == self.cells@[i]
                    },
                decreases w - col,
            {
                let n = self.get_index(row, col);
                let x: i64 = self.x_offset as i64 + (PITCH as i64) * (col as i64);
                let y: i64 = self.y_offset as i64 + (PITCH as i64) * (row as i64);
                let cell = self.cells[n];
                proof {
                    let idx = row as int * w as int + col as int;
                    lemma_fundamental_div_mod_converse(idx, w as int, row as int, col as int);
                }
                out.push((x, y, cell));
                col = col + 1;
            }
            proof {
                let r = row as int;
                let ww = w as int;
                assert((r + 1) * ww == r * ww + ww) by (nonlinear_arith);
            }
            row = row + 1;
        }
        proof {
            let ww = w as int;
            let hh = h as int;
            assert(hh * ww == ww * hh) by (nonlinear_arith);
        }
        out
    }

    /// Clear the cell under a pointer pixel position; pixels outside the
    /// grid are silently absorbed.
    pub fn kill(&mut self, x: i32, y: i32)
        requires
            old(self).well_formed(),
        ensures
            final(self).well_formed(),
            final(self).width == old(self).width,
            final(self).height == old(self).height,
            final(self).state == old(self).state,
            final(self).x_offset == old(self).x_offset,
            final(self).y_offset == old(self).y_offset,
            final(self).scale_milli == old(self).scale_milli,
            old(self).pixel_in_grid(x as int, y as int) ==> final(self).cells@
                == old(self).cells@.update(
                old(self).spec_index_of(
                    old(self).resolved_row(y as int),
                    old(self).resolved_col(x as int),
                ),
                Cell::Dead,
            ),
            !old(self).pixel_in_grid(x as int, y as int) ==> final(self).cells@
                == old(self).cells@,
    {
        match self.pixel_to_cell(x, y) {
            Some((row, col)) => self.set_cell(row, col, false),
            None => {},
        }
    }

    /// Set the cell under a pointer pixel position to `Alive`; pixels
    /// outside the grid are silently absorbed.
    pub fn revive(&mut self, x: i32, y: i32)
        requires
            old(self).well_formed(),
        ensures
            final(self).well_formed(),
            final(self).width == old(self).width,
            final(self).height == old(self).height,
            final(self).state == old(self).state,
            final(self).x_offset == old(self).x_offset,
            final(self).y_offset == old(self).y_offset,
            final(self).scale_milli == old(self).scale_milli,
            old(self).pixel_in_grid(x as int, y as int) ==> final(self).cells@
                == old(self).cells@.update(
                old(self).spec_index_of(
                    old(self).resolved_row(y as int),
                    old(self).resolved_col(x as int),
                ),
                Cell::Alive,
            ),
            !old(self).pixel_in_grid(x as int, y as int) ==> final(self).cells@
                == old(self).cells@,
    {
        match self.pixel_to_cell(x, y) {
            Some((row, col)) => self.set_cell(row, col, true),
            None => {},
        }
    }
}

/// Two's-complement wraparound of an accumulated offset into the range of
/// the offset field.
pub open spec fn wrap_i32(v: int) -> int {
    if v > i32::MAX as int {
        v - 0x1_0000_0000
    } else if v < i32::MIN as int {
        v + 0x1_0000_0000
    } else {
        v
    }
}

/// The scale accumulator after adding a delta: clamped below at its floor
/// and above at the accumulator's range.
pub open spec fn clamped_scale(v: int) -> int {
    if v < SCALE_FLOOR_MILLI as int {
        SCALE_FLOOR_MILLI as int
    } else if v > u32::MAX as int {
        u32::MAX as int
    } else {
        v
    }
}

/// Floor division by the pixel pitch keeps the sign of its argument.
proof fn lemma_floor_div_sign(x: int)
    ensures
        x >= 0 ==> x / (PITCH as int) >= 0,
        x < 0 ==> x / (PITCH as int) < 0,
{
    vstd::arithmetic::div_mod::lemma_fundamental_div_mod(x, PITCH as int);
    vstd::arithmetic::div_mod::lemma_mod_bound(x, PITCH as int);
}

/// Toroidal wrap reaches across every edge: on a grid at least 3 wide and 3
/// high, a live cell in the top-left corner is counted as a neighbor of the
/// bottom-right corner, of the bottom-left corner, and of the top-right
/// corner.
pub proof fn lemma_toroidal_wrap(s: Seq<Cell>, w: int, h: int)
    requires
        3 <= w,
        3 <= h,
        s.len() == w * h,
        s[0] == Cell::Alive,
    ensures
        neighbor_count_spec(s, w, h, h - 1, w - 1) >= 1,
        neighbor_count_spec(s, w, h, h - 1, 0) >= 1,
        neighbor_count_spec(s, w, h, 0, w - 1) >= 1,
{
    vstd::arithmetic::div_mod::lemma_mod_self_0(h);
    vstd::arithmetic::div_mod::lemma_mod_self_0(w);
    assert(wrap_inc(h - 1, h) == 0);
    assert(wrap_inc(w - 1, w) == 0);
    assert(bit_at(s, w, 0, 0) == 1);
    assert forall|r: int, c: int| #[trigger] bit_at(s, w, r, c) >= 0 by {
        assert(cell_bit(s[r * w + c]) >= 0);
    }
}

} // verus!
