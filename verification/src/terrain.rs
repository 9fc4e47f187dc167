//! The destructible terrain raster and its collision queries.
//!
//! The terrain is a `width x height` grid of color cells. Exactly one
//! color class is passable: a cell whose low 24 bits are `0xFF00FF` is
//! empty, every other value is solid. Out-of-bounds cells are always
//! treated as passable. Cratering (`apply_mask`) writes a mask raster
//! verbatim over the terrain, sentinel cells included, so a crater is
//! literally erasure of terrain pixels.

use vstd::prelude::*;

verus! {

use crate::fixed::{FX_ONE, tdiv, fx_to_units};
use crate::geom::BoundingBox;

/// The color the terrain is filled with before a level is drawn onto it;
/// its low 24 bits are the passable sentinel.
pub const EMPTY_COLOR: u32 = 0xFFFF00FF;

/// Whether a cell color counts as solid material: everything except the
/// sentinel's low 24 bits.
pub open spec fn cell_solid(c: u32) -> bool {
    c & 0xFFFFFF != 0xFF00FF
}

/// The fill color of a fresh terrain is passable.
pub proof fn lemma_empty_color_not_solid()
    ensures
        !cell_solid(EMPTY_COLOR),
{
    assert(0xFFFF00FFu32 & 0xFFFFFF == 0xFF00FF) by (bit_vector);
}

proof fn lemma_index_in_raster(x: int, y: int, w: int, h: int)
    by (nonlinear_arith)
    requires
        0 <= x < w,
        0 <= y < h,
        w <= 32768,
        h <= 32768,
    ensures
        0 <= y * w + x < w * h,
        w * h <= 0x40000000,
{
}

proof fn lemma_index_injective(x1: int, y1: int, x2: int, y2: int, w: int)
    by (nonlinear_arith)
    requires
        0 <= x1 < w,
        0 <= x2 < w,
        0 <= y1,
        0 <= y2,
        y1 * w + x1 == y2 * w + x2,
    ensures
        x1 == x2 && y1 == y2,
{
}

/// Monotonicity of the cell a coordinate falls in.
pub proof fn lemma_tdiv_monotone(a: int, b: int, d: int)
    requires
        a <= b,
        0 < d,
    ensures
        tdiv(a, d) <= tdiv(b, d),
{
    if a >= 0 {
        vstd::arithmetic::div_mod::lemma_div_is_ordered(a, b, d);
    } else if b >= 0 {
        vstd::arithmetic::div_mod::lemma_div_is_ordered(0, -a, d);
        vstd::arithmetic::div_mod::lemma_div_is_ordered(0, b, d);
        vstd::arithmetic::div_mod::lemma_div_basics(d);
    } else {
        vstd::arithmetic::div_mod::lemma_div_is_ordered(-b, -a, d);
    }
}

/// The exact grid cells of the segment from `start` to `end`, in walking
/// order. Stands for what `line_drawing::Bresenham` yields; stated only
/// through the trusted wrapper below.
pub uninterp spec fn bresenham_points(start: (i32, i32), end: (i32, i32)) -> Seq<(i32, i32)>;

/// Whether the query point (`x`, `y`) stops movement in a raster given by
/// its raw cells: in bounds and not the sentinel.
pub open spec fn solid_in(cells: Seq<u32>, w: int, h: int, x: int, y: int) -> bool {
    0 <= x < w && 0 <= y < h && cell_solid(cells[y * w + x])
}

/// First stopping cell among `pts[i..]` in a raster given by its raw
/// cells, in walking order.
pub open spec fn line_hit_from(
    cells: Seq<u32>,
    w: int,
    h: int,
    pts: Seq<(i32, i32)>,
    i: int,
) -> Option<(i32, i32)>
    decreases pts.len() - i,
{
    if i < 0 || i >= pts.len() {
        None
    } else if solid_in(cells, w, h, pts[i].0 as int, pts[i].1 as int) {
        Some(pts[i])
    } else {
        line_hit_from(cells, w, h, pts, i + 1)
    }
}

/// The raw cells after one pixel was overwritten.
pub open spec fn cells_with_pixel(cells: Seq<u32>, w: int, x: int, y: int, color: u32) -> Seq<
    u32,
> {
    cells.update(y * w + x, color)
}

/// The raw cells after a mask raster with top-left corner (`left`, `top`)
/// was stamped verbatim over them.
pub open spec fn stamped_cells(
    cells: Seq<u32>,
    w: int,
    mask: MaskBuffer,
    left: int,
    top: int,
) -> Seq<u32> {
    Seq::new(
        cells.len(),
        |k: int|
            {
                let x = k % w;
                let y = k / w;
                if left <= x < left + mask.width && top <= y < top + mask.height {
                    mask.cell(x - left, y - top)
                } else {
                    cells[k]
                }
            },
    )
}

/// Relies on `line_drawing::Bresenham`: rasterizes the segment cell by
/// cell, including both the start and the end point. The coordinate bound
/// keeps the crate's internal deltas inside `i32`.
#[verifier::external_body]
fn bresenham_line(start: (i32, i32), end: (i32, i32)) -> (r: Vec<(i32, i32)>)
    requires
        -1_000_000_000 <= start.0 <= 1_000_000_000,
        -1_000_000_000 <= start.1 <= 1_000_000_000,
        -1_000_000_000 <= end.0 <= 1_000_000_000,
        -1_000_000_000 <= end.1 <= 1_000_000_000,
    ensures
        r@ == bresenham_points(start, end),
        r@.len() >= 1,
        r@[0] == start,
        r@[r@.len() - 1] == end,
{
    line_drawing::Bresenham::new(start, end).collect()
}

/// The destructible raster all collision queries run against.
pub struct Terrain {
    pub buffer: Vec<u32>,
    pub width: usize,
    pub height: usize,
}

/// A crater stamp: a small raster written verbatim onto the terrain,
/// centered on an impact point.
pub struct MaskBuffer {
    pub cells: Vec<u32>,
    pub width: usize,
    pub height: usize,
}

impl MaskBuffer {
    pub open spec fn wf(self) -> bool {
        &&& self.cells@.len() == self.width * self.height
        &&& self.width <= 32768
        &&& self.height <= 32768
    }

    /// The mask cell at local coordinates (`mx`, `my`).
    pub open spec fn cell(self, mx: int, my: int) -> u32 {
        self.cells@[my * self.width + mx]
    }
}

impl Terrain {
    pub open spec fn wf(self) -> bool {
        &&& self.buffer@.len() == self.width * self.height
        &&& self.width <= 32768
        &&& self.height <= 32768
    }

    pub open spec fn in_bounds(self, x: int, y: int) -> bool {
        0 <= x < self.width && 0 <= y < self.height
    }

    /// The color of an in-bounds cell.
    pub open spec fn cell(self, x: int, y: int) -> u32 {
        self.buffer@[y * self.width + x]
    }

    /// Whether the query point (`x`, `y`) stops movement: in bounds and not
    /// the sentinel. Out-of-bounds cells are always passable.
    pub open spec fn solid_at(self, x: int, y: int) -> bool {
        solid_in(self.buffer@, self.width as int, self.height as int, x, y)
    }

    /// No cell of the raster holds material.
    pub open spec fn fully_empty(self) -> bool {
        forall|x: int, y: int| !self.solid_at(x, y)
    }

    /// A fresh terrain of the given size, entirely passable.
    pub fn new(size: (usize, usize)) -> (r: Terrain)
        requires
            size.0 <= 32768,
            size.1 <= 32768,
        ensures
            r.wf(),
            r.width == size.0,
            r.height == size.1,
            r.fully_empty(),
    {
        proof {
            crate::fixed::lemma_mul_upper_bound(size.0 as int, size.1 as int, 32768, 32768);
        }
        let n: usize = size.0 * size.1;
        let mut buffer: Vec<u32> = Vec::new();
        let mut i: usize = 0;
        while i < n
            invariant
                i <= n,
                buffer@.len() == i,
                forall|k: int| 0 <= k < i ==> buffer@[k] == EMPTY_COLOR,
            decreases n - i,
        {
            buffer.push(EMPTY_COLOR);
            i = i + 1;
        }
        let r = Terrain { buffer, width: size.0, height: size.1 };
        proof {
            lemma_empty_color_not_solid();
            assert forall|x: int, y: int| !r.solid_at(x, y) by {
                if r.in_bounds(x, y) {
                    lemma_index_in_raster(x, y, r.width as int, r.height as int);
                }
            }
        }
        r
    }

    /// The raster dimensions, as the collision queries speak of them.
    pub fn size(&self) -> (r: (i32, i32))
        requires
            self.wf(),
        ensures
            r.0 == self.width,
            r.1 == self.height,
    {
        (self.width as i32, self.height as i32)
    }

    /// First stopping cell among `pts[i..]`, in walking order.
    pub open spec fn first_hit_from(self, pts: Seq<(i32, i32)>, i: int) -> Option<(i32, i32)> {
        line_hit_from(self.buffer@, self.width as int, self.height as int, pts, i)
    }

    /// Walk the raster cells of the segment from `start` to `end` and
    /// report the first in-bounds solid cell, or `None` when the whole
    /// walk is passable.
    pub fn line_collides(&self, start: (i32, i32), end: (i32, i32)) -> (r: Option<(i32, i32)>)
        requires
            self.wf(),
            -1_000_000_000 <= start.0 <= 1_000_000_000,
            -1_000_000_000 <= start.1 <= 1_000_000_000,
            -1_000_000_000 <= end.0 <= 1_000_000_000,
            -1_000_000_000 <= end.1 <= 1_000_000_000,
        ensures
            r == self.first_hit_from(bresenham_points(start, end), 0),
            r matches Some(hit) ==> self.solid_at(hit.0 as int, hit.1 as int),
    {
        let pts = bresenham_line(start, end);
        let n = pts.len();
        let mut j: usize = 0;
        while j < n
            invariant
                j <= n,
                n == pts@.len(),
                pts@ == bresenham_points(start, end),
                self.wf(),
                self.first_hit_from(pts@, 0) == self.first_hit_from(pts@, j as int),
            decreases n - j,
        {
            let p = pts[j];
            if p.0 >= 0 && p.1 >= 0 && p.0 < self.width as i32 && p.1 < self.height as i32 {
                proof {
                    lemma_index_in_raster(p.0 as int, p.1 as int, self.width as int, self.height as int);
                }
                let idx: usize = (p.1 as usize) * self.width + (p.0 as usize);
                if self.buffer[idx] & 0xFFFFFF != 0xFF00FF {
                    return Some(p);
                }
            }
            j = j + 1;
        }
        None
    }

    /// Law: on a fully empty terrain, a line query between any two points
    /// in range returns `None`.
    pub proof fn lemma_line_collides_on_empty(self, start: (i32, i32), end: (i32, i32))
        requires
            self.fully_empty(),
        ensures
            self.first_hit_from(bresenham_points(start, end), 0) is None,
    {
        self.lemma_no_hit_when_empty(bresenham_points(start, end), 0);
    }

    proof fn lemma_no_hit_when_empty(self, pts: Seq<(i32, i32)>, i: int)
        requires
            self.fully_empty(),
        ensures
            self.first_hit_from(pts, i) is None,
        decreases pts.len() - i,
    {
        if 0 <= i < pts.len() {
            assert(!self.solid_at(pts[i].0 as int, pts[i].1 as int));
            self.lemma_no_hit_when_empty(pts, i + 1);
        }
    }

    /// First stopping cell of row `y` between columns `x` and `x_hi`,
    /// scanning rightward.
    pub open spec fn row_hit(self, y: int, x: int, x_hi: int) -> Option<(i32, i32)>
        decreases x_hi - x + 1,
    {
        if x > x_hi {
            None
        } else if self.solid_at(x, y) {
            Some((x as i32, y as i32))
        } else {
            self.row_hit(y, x + 1, x_hi)
        }
    }

    /// First stopping cell of the cell rectangle rows `y..=y_hi`, columns
    /// `x_lo..=x_hi`, scanning rows top-down and each row rightward.
    pub open spec fn rect_first_hit(self, y: int, y_hi: int, x_lo: int, x_hi: int) -> Option<
        (i32, i32),
    >
        decreases y_hi - y + 1,
    {
        if y > y_hi {
            None
        } else {
            match self.row_hit(y, x_lo, x_hi) {
                Some(hit) => Some(hit),
                None => self.rect_first_hit(y + 1, y_hi, x_lo, x_hi),
            }
        }
    }

    /// After one cell of a well-formed terrain is overwritten, every other
    /// cell reads as before.
    pub proof fn lemma_cell_update(before: Terrain, after: Terrain, x: int, y: int, c: u32)
        requires
            before.wf(),
            before.in_bounds(x, y),
            after.width == before.width,
            after.height == before.height,
            after.buffer@ == before.buffer@.update(y * before.width + x, c),
        ensures
            after.wf(),
            forall|tx: int, ty: int|
                before.in_bounds(tx, ty) ==> after.cell(tx, ty) == (if tx == x && ty == y {
                    c
                } else {
                    before.cell(tx, ty)
                }),
    {
        lemma_index_in_raster(x, y, before.width as int, before.height as int);
        assert forall|tx: int, ty: int| before.in_bounds(tx, ty) implies after.cell(tx, ty) == (
        if tx == x && ty == y {
            c
        } else {
            before.cell(tx, ty)
        }) by {
            lemma_index_in_raster(tx, ty, before.width as int, before.height as int);
            if ty * before.width + tx == y * before.width + x {
                lemma_index_injective(tx, ty, x, y, before.width as int);
            }
        }
    }

    /// The cell row a world-space box's top edge falls in.
    pub open spec fn box_top_row(hit_box: BoundingBox) -> int {
        tdiv(hit_box.min.y as int, FX_ONE as int)
    }

    /// What `rect_collides` answers for a world-space box, as one value.
    pub open spec fn box_probe(self, hit_box: BoundingBox) -> Option<(i32, i32)> {
        self.rect_first_hit(
            tdiv(hit_box.min.y as int, FX_ONE as int),
            tdiv(hit_box.max.y as int, FX_ONE as int),
            tdiv(hit_box.min.x as int, FX_ONE as int),
            tdiv(hit_box.max.x as int, FX_ONE as int),
        )
    }

    /// Probe the cells covered by a world-space box, rows top-down and
    /// each row left to right, and report the first in-bounds solid cell.
    /// A reported hit whose row equals the box's top row means the box is
    /// blocked at head height; any other hit is ground or side contact.
    pub fn rect_collides(&self, hit_box: BoundingBox) -> (r: Option<(i32, i32)>)
        requires
            self.wf(),
            hit_box.wf(),
        ensures
            r == self.box_probe(hit_box),
            r matches Some(hit) ==> self.solid_at(hit.0 as int, hit.1 as int),
    {
        let x_lo: i64 = fx_to_units(hit_box.min.x);
        let x_hi: i64 = fx_to_units(hit_box.max.x);
        let y_lo: i64 = fx_to_units(hit_box.min.y);
        let y_hi: i64 = fx_to_units(hit_box.max.y);
        proof {
            self.lemma_rect_hit_props(y_lo as int, y_hi as int, x_lo as int, x_hi as int);
            lemma_tdiv_monotone(hit_box.min.x as int, hit_box.max.x as int, FX_ONE as int);
            lemma_tdiv_monotone(hit_box.min.y as int, hit_box.max.y as int, FX_ONE as int);
        }
        let mut y: i64 = y_lo;
        while y <= y_hi
            invariant
                self.wf(),
                y_lo <= y <= y_hi + 1,
                -1_000_000_000 <= y_lo,
                y_hi <= 1_000_000_000,
                x_lo <= x_hi + 1,
                -1_000_000_000 <= x_lo <= 1_000_000_001,
                -1_000_000_000 <= x_hi <= 1_000_000_000,
                self.rect_first_hit(y_lo as int, y_hi as int, x_lo as int, x_hi as int)
                    == self.rect_first_hit(y as int, y_hi as int, x_lo as int, x_hi as int),
            decreases y_hi + 1 - y,
        {
            let mut x: i64 = x_lo;
            while x <= x_hi
                invariant
                    self.wf(),
                    x_lo <= x <= x_hi + 1,
                    -1_000_000_000 <= x_lo,
                    x_hi <= 1_000_000_000,
                    -1_000_000_000 <= y <= 1_000_000_000,
                    self.row_hit(y as int, x_lo as int, x_hi as int) == self.row_hit(
                        y as int,
                        x as int,
                        x_hi as int,
                    ),
                decreases x_hi + 1 - x,
            {
                if x >= 0 && y >= 0 && x < self.width as i64 && y < self.height as i64 {
                    proof {
                        lemma_index_in_raster(x as int, y as int, self.width as int, self.height as int);
                    }
                    let idx: usize = (y as usize) * self.width + (x as usize);
                    if self.buffer[idx] & 0xFFFFFF != 0xFF00FF {
                        return Some((x as i32, y as i32));
                    }
                }
                x = x + 1;
            }
            y = y + 1;
        }
        None
    }

    /// A row scan finds a cell exactly when the row holds one, and what it
    /// finds is the leftmost solid cell of the row, at that row.
    pub proof fn lemma_row_hit_props(self, y: int, x: int, x_hi: int)
        requires
            -2_000_000_000 <= x,
            x_hi <= 2_000_000_000,
            -2_000_000_000 <= y <= 2_000_000_000,
        ensures
            (self.row_hit(y, x, x_hi) is Some) <==> exists|xx: int|
                x <= xx <= x_hi && self.solid_at(xx, y),
            self.row_hit(y, x, x_hi) matches Some(hit) ==> {
                &&& hit.1 as int == y
                &&& x <= hit.0 as int <= x_hi
                &&& self.solid_at(hit.0 as int, y)
                &&& forall|xx: int| x <= xx < hit.0 as int ==> !self.solid_at(xx, y)
            },
        decreases x_hi - x + 1,
    {
        if x > x_hi {
        } else if self.solid_at(x, y) {
        } else {
            self.lemma_row_hit_props(y, x + 1, x_hi);
        }
    }

    /// A rectangle scan finds a cell exactly when the rectangle holds one;
    /// the find is a solid cell of the rectangle, and every row above its
    /// row is fully passable inside the rectangle.
    pub proof fn lemma_rect_hit_props(self, y: int, y_hi: int, x_lo: int, x_hi: int)
        requires
            -2_000_000_000 <= x_lo,
            x_hi <= 2_000_000_000,
            -2_000_000_000 <= y,
            y_hi <= 2_000_000_000,
        ensures
            (self.rect_first_hit(y, y_hi, x_lo, x_hi) is Some) <==> exists|xx: int, yy: int|
                x_lo <= xx <= x_hi && y <= yy <= y_hi && self.solid_at(xx, yy),
            self.rect_first_hit(y, y_hi, x_lo, x_hi) matches Some(hit) ==> {
                &&& y <= hit.1 as int <= y_hi
                &&& x_lo <= hit.0 as int <= x_hi
                &&& self.solid_at(hit.0 as int, hit.1 as int)
                &&& forall|xx: int, yy: int|
                    x_lo <= xx <= x_hi && y <= yy < hit.1 as int ==> !self.solid_at(xx, yy)
            },
        decreases y_hi - y + 1,
    {
        if y > y_hi {
        } else {
            self.lemma_row_hit_props(y, x_lo, x_hi);
            match self.row_hit(y, x_lo, x_hi) {
                Some(hit) => {},
                None => {
                    self.lemma_rect_hit_props(y + 1, y_hi, x_lo, x_hi);
                },
            }
        }
    }

    /// Law: a box probe reports a top-edge hit if and only if the box's
    /// top cell row holds solid terrain; when only lower rows hold solid
    /// cells the reported hit lies below the top row.
    pub proof fn lemma_rect_top_edge(self, y_lo: int, y_hi: int, x_lo: int, x_hi: int)
        requires
            -1_000_000_000 <= x_lo,
            x_hi <= 1_000_000_000,
            -1_000_000_000 <= y_lo <= y_hi <= 1_000_000_000,
        ensures
            (self.rect_first_hit(y_lo, y_hi, x_lo, x_hi) matches Some(hit) && hit.1 as int == y_lo)
                <==> exists|xx: int| x_lo <= xx <= x_hi && self.solid_at(xx, y_lo),
            ((exists|xx: int, yy: int| x_lo <= xx <= x_hi && y_lo < yy <= y_hi && self.solid_at(xx, yy))
                && (forall|xx: int| x_lo <= xx <= x_hi ==> !self.solid_at(xx, y_lo))) ==> (
            self.rect_first_hit(y_lo, y_hi, x_lo, x_hi) matches Some(hit) && hit.1 as int > y_lo),
    {
        self.lemma_rect_hit_props(y_lo, y_hi, x_lo, x_hi);
        self.lemma_row_hit_props(y_lo, x_lo, x_hi);
        match self.rect_first_hit(y_lo, y_hi, x_lo, x_hi) {
            Some(hit) => {
                if hit.1 as int == y_lo {
                } else {
                }
            },
            None => {},
        }
    }

    /// Set one cell to a color; the particle system's permanent marks.
    pub fn draw_pixel(&mut self, pos: (usize, usize), color: u32)
        requires
            old(self).wf(),
            pos.0 < old(self).width,
            pos.1 < old(self).height,
        ensures
            final(self).wf(),
            final(self).width == old(self).width,
            final(self).height == old(self).height,
            final(self).buffer@ == cells_with_pixel(
                old(self).buffer@,
                old(self).width as int,
                pos.0 as int,
                pos.1 as int,
                color,
            ),
    {
        proof {
            lemma_index_in_raster(pos.0 as int, pos.1 as int, self.width as int, self.height as int);
        }
        let idx: usize = pos.1 * self.width + pos.0;
        self.buffer.set(idx, color);
    }

    /// The color cell (`tx`, `ty`) shows after a mask with top-left corner
    /// (`left`, `top`) is stamped over `before`: the mask cell if covered,
    /// the old color otherwise.
    pub open spec fn stamped_cell(
        before: Terrain,
        mask: MaskBuffer,
        left: int,
        top: int,
        tx: int,
        ty: int,
    ) -> u32 {
        if left <= tx < left + mask.width && top <= ty < top + mask.height {
            mask.cell(tx - left, ty - top)
        } else {
            before.cell(tx, ty)
        }
    }

    /// Stamp a crater mask centered on `center`, writing every mask cell
    /// verbatim — sentinel cells included, so material is erased wherever
    /// the mask says so. Cells falling outside the terrain are skipped.
    pub fn apply_mask(&mut self, mask: &MaskBuffer, center: (i32, i32))
        requires
            old(self).wf(),
            mask.wf(),
            -1_000_000_000 <= center.0 <= 1_000_000_000,
            -1_000_000_000 <= center.1 <= 1_000_000_000,
        ensures
            final(self).wf(),
            final(self).width == old(self).width,
            final(self).height == old(self).height,
            forall|tx: int, ty: int|
                old(self).in_bounds(tx, ty) ==> final(self).cell(tx, ty) == Self::stamped_cell(
                    *old(self),
                    *mask,
                    center.0 - mask.width / 2,
                    center.1 - mask.height / 2,
                    tx,
                    ty,
                ),
            final(self).buffer@ == stamped_cells(
                old(self).buffer@,
                old(self).width as int,
                *mask,
                center.0 - mask.width / 2,
                center.1 - mask.height / 2,
            ),
    {
        let left: i64 = center.0 as i64 - (mask.width / 2) as i64;
        let top: i64 = center.1 as i64 - (mask.height / 2) as i64;
        let ghost left_g: int = left as int;
        let ghost top_g: int = top as int;
        let mut my: usize = 0;
        while my < mask.height
            invariant
                self.wf(),
                mask.wf(),
                self.width == old(self).width,
                self.height == old(self).height,
                my <= mask.height,
                left_g == center.0 - mask.width / 2,
                top_g == center.1 - mask.height / 2,
                -2_000_000_000 <= left_g <= 2_000_000_000,
                -2_000_000_000 <= top_g <= 2_000_000_000,
                forall|tx: int, ty: int|
                    old(self).in_bounds(tx, ty) ==> self.cell(tx, ty) == (
                    if top_g <= ty < top_g + my && left_g <= tx < left_g + mask.width {
                        mask.cell(tx - left_g, ty - top_g)
                    } else {
                        old(self).cell(tx, ty)
                    }),
            decreases mask.height - my,
        {
            let ty: i64 = top + my as i64;
            let mut mx: usize = 0;
            while mx < mask.width
                invariant
                    self.wf(),
                    mask.wf(),
                    self.width == old(self).width,
                    self.height == old(self).height,
                    my < mask.height,
                    mx <= mask.width,
                    ty == top_g + my,
                    left_g == center.0 - mask.width / 2,
                    top_g == center.1 - mask.height / 2,
                    -2_000_000_000 <= left_g <= 2_000_000_000,
                    -2_000_000_000 <= top_g <= 2_000_000_000,
                    forall|tx: int, tyy: int|
                        old(self).in_bounds(tx, tyy) ==> self.cell(tx, tyy) == (
                        if (top_g <= tyy < top_g + my && left_g <= tx < left_g + mask.width) || (
                        tyy == top_g + my && left_g <= tx < left_g + mx) {
                            mask.cell(tx - left_g, tyy - top_g)
                        } else {
                            old(self).cell(tx, tyy)
                        }),
                decreases mask.width - mx,
            {
                let tx: i64 = left + mx as i64;
                if tx >= 0 && ty >= 0 && tx < self.width as i64 && ty < self.height as i64 {
                    proof {
                        lemma_index_in_raster(tx as int, ty as int, self.width as int, self.height as int);
                        lemma_index_in_raster(mx as int, my as int, mask.width as int, mask.height as int);
                    }
                    let idx: usize = (ty as usize) * self.width + (tx as usize);
                    let midx: usize = my * mask.width + mx;
                    let color: u32 = mask.cells[midx];
                    let ghost before = *self;
                    self.buffer.set(idx, color);
                    proof {
                        Self::lemma_cell_update(before, *self, tx as int, ty as int, color);
                    }
                }
                mx = mx + 1;
            }
            my = my + 1;
        }
        proof {
            let w = old(self).width as int;
            let h = old(self).height as int;
            let target = stamped_cells(old(self).buffer@, w, *mask, left_g, top_g);
            assert forall|k: int| 0 <= k < self.buffer@.len() implies self.buffer@[k]
                == target[k] by {
                let x = k % w;
                let y = k / w;
                assert(0 < w && 0 < h) by (nonlinear_arith)
                    requires
                        0 <= k < w * h,
                        0 <= w,
                        0 <= h,
                ;
                vstd::arithmetic::div_mod::lemma_fundamental_div_mod(k, w);
                vstd::arithmetic::div_mod::lemma_mod_bound(k, w);
                assert(0 <= y < h) by (nonlinear_arith)
                    requires
                        k == w * y + x,
                        0 <= x < w,
                        0 <= k < w * h,
                ;
                assert(old(self).in_bounds(x, y));
                assert(self.cell(x, y) == self.buffer@[k]);
            }
            assert(self.buffer@ =~= target);
        }
    }
}

/// A queued crater: which mask to stamp, and where.
#[derive(Clone, Copy, Debug, PartialEq, Eq)]
pub struct TerrainMask {
    pub id: usize,
    pub pos: (i32, i32),
}

impl TerrainMask {
    pub fn new(id: usize, pos: (i32, i32)) -> (r: TerrainMask)
        ensures
            r == (TerrainMask { id, pos }),
    {
        TerrainMask { id, pos }
    }
}

} // verus!
