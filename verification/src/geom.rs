//! Spatial primitives: fixed-point points and axis-aligned bounding boxes.
//!
//! A `BoundingBox` component is kept in entity-local coordinates and is
//! combined with its owner's current `Point` through [`BoundingBox::translated`]
//! before any intersection or terrain test; it is never stored pre-translated.

use vstd::prelude::*;

verus! {

use crate::fixed::{FX_ONE, FX_LIMIT, fx_in_range, fx_clamp, fx_clamp_val, tdiv, fx_to_units};

/// A position or displacement in fixed-point world coordinates.
#[derive(Clone, Copy, Debug, PartialEq, Eq, Structural)]
pub struct Point {
    pub x: i64,
    pub y: i64,
}

/// A world position attached to a unit entity.
#[derive(Clone, Copy, Debug, PartialEq, Eq, Structural)]
pub struct WorldPosition(pub Point);

impl Point {
    /// Both coordinates are representable stored quantities.
    pub open spec fn wf(self) -> bool {
        fx_in_range(self.x as int) && fx_in_range(self.y as int)
    }

    pub fn new(x: i64, y: i64) -> (r: Point)
        requires
            fx_in_range(x as int),
            fx_in_range(y as int),
        ensures
            r == (Point { x, y }),
    {
        Point { x, y }
    }

    /// The raster cell this point falls in, as a spec value.
    pub open spec fn cell_of(self) -> (i32, i32) {
        (
            tdiv(self.x as int, FX_ONE as int) as i32,
            tdiv(self.y as int, FX_ONE as int) as i32,
        )
    }

    /// The raster cell this point falls in: whole world units, truncated
    /// toward zero.
    pub fn as_i32(self) -> (r: (i32, i32))
        requires
            self.wf(),
        ensures
            r == self.cell_of(),
            r.0 as int == tdiv(self.x as int, FX_ONE as int),
            r.1 as int == tdiv(self.y as int, FX_ONE as int),
            -1_000_000_000 <= r.0 <= 1_000_000_000,
            -1_000_000_000 <= r.1 <= 1_000_000_000,
    {
        (fx_to_units(self.x) as i32, fx_to_units(self.y) as i32)
    }

    /// The raster cell as unsigned indices, for a point at or right of the
    /// origin.
    pub fn as_usize(self) -> (r: (usize, usize))
        requires
            self.wf(),
            self.x >= 0,
            self.y >= 0,
        ensures
            r.0 as int == tdiv(self.x as int, FX_ONE as int),
            r.1 as int == tdiv(self.y as int, FX_ONE as int),
    {
        (fx_to_units(self.x) as usize, fx_to_units(self.y) as usize)
    }
}

/// An axis-aligned rectangle, held with its two corners normalized so that
/// `min` is component-wise at most `max`.
#[derive(Clone, Copy, Debug, PartialEq, Eq, Structural)]
pub struct BoundingBox {
    pub min: Point,
    pub max: Point,
}

/// Strict axis-aligned overlap: two boxes that merely touch on an edge do
/// not intersect.
pub open spec fn boxes_intersect(a: BoundingBox, b: BoundingBox) -> bool {
    a.min.x < b.max.x && b.min.x < a.max.x && a.min.y < b.max.y && b.min.y < a.max.y
}

impl BoundingBox {
    /// Corners are normalized and representable.
    pub open spec fn wf(self) -> bool {
        self.min.wf() && self.max.wf() && self.min.x <= self.max.x && self.min.y <= self.max.y
    }

    /// Build a box from two arbitrary corner points, normalizing them.
    pub fn new(p1: Point, p2: Point) -> (r: BoundingBox)
        requires
            p1.wf(),
            p2.wf(),
        ensures
            r.wf(),
            r.min.x == (if p1.x <= p2.x { p1.x } else { p2.x }),
            r.max.x == (if p1.x <= p2.x { p2.x } else { p1.x }),
            r.min.y == (if p1.y <= p2.y { p1.y } else { p2.y }),
            r.max.y == (if p1.y <= p2.y { p2.y } else { p1.y }),
    {
        let min = Point {
            x: if p1.x <= p2.x { p1.x } else { p2.x },
            y: if p1.y <= p2.y { p1.y } else { p2.y },
        };
        let max = Point {
            x: if p1.x <= p2.x { p2.x } else { p1.x },
            y: if p1.y <= p2.y { p2.y } else { p1.y },
        };
        BoundingBox { min, max }
    }

    /// Horizontal extent, in fixed-point ticks.
    pub fn width(self) -> (r: i64)
        requires
            self.wf(),
        ensures
            r as int == self.max.x - self.min.x,
    {
        self.max.x - self.min.x
    }

    /// Vertical extent, in fixed-point ticks.
    pub fn height(self) -> (r: i64)
        requires
            self.wf(),
        ensures
            r as int == self.max.y - self.min.y,
    {
        self.max.y - self.min.y
    }

    /// Corner cell and extent in whole world units, truncated toward zero.
    pub fn to_i32(self) -> (r: (i32, i32, i32, i32))
        requires
            self.wf(),
        ensures
            r.0 as int == tdiv(self.min.x as int, FX_ONE as int),
            r.1 as int == tdiv(self.min.y as int, FX_ONE as int),
            r.2 as int == tdiv(self.max.x - self.min.x, FX_ONE as int),
            r.3 as int == tdiv(self.max.y - self.min.y, FX_ONE as int),
    {
        let cell = (fx_to_units(self.min.x) as i32, fx_to_units(self.min.y) as i32);
        let w: i64 = self.max.x - self.min.x;
        let h: i64 = self.max.y - self.min.y;
        proof {
            crate::fixed::lemma_tdiv_in_range(w as int);
            crate::fixed::lemma_tdiv_in_range(h as int);
        }
        let wu: i64 = (w as u64 / (FX_ONE as u64)) as i64;
        let hu: i64 = (h as u64 / (FX_ONE as u64)) as i64;
        (cell.0, cell.1, wu as i32, hu as i32)
    }

    /// The same box with a quarter of its width shaved off each side.
    pub fn to_half_width(self) -> (r: BoundingBox)
        requires
            self.wf(),
        ensures
            r.wf(),
            r.min.x as int == self.min.x + tdiv(self.max.x - self.min.x, 4),
            r.max.x as int == self.max.x - tdiv(self.max.x - self.min.x, 4),
            r.min.y == self.min.y,
            r.max.y == self.max.y,
    {
        let w: i64 = self.max.x - self.min.x;
        let quart: i64 = (w as u64 / 4u64) as i64;
        proof {
            crate::fixed::lemma_quarter_bounds(self.min.x as int, self.max.x as int);
        }
        BoundingBox {
            min: Point { x: self.min.x + quart, y: self.min.y },
            max: Point { x: self.max.x - quart, y: self.max.y },
        }
    }

    /// The value `translated` computes, for use in contracts.
    pub open spec fn translate_spec(self, pos: Point) -> BoundingBox {
        BoundingBox {
            min: Point {
                x: fx_clamp(self.min.x + pos.x) as i64,
                y: fx_clamp(self.min.y + pos.y) as i64,
            },
            max: Point {
                x: fx_clamp(self.max.x + pos.x) as i64,
                y: fx_clamp(self.max.y + pos.y) as i64,
            },
        }
    }

    /// The box carried into world space: both corners shifted by the owner's
    /// position, saturating at the representable range. The position may
    /// overhang the stored range by a couple of world units; the ground
    /// clamping loop probes from such intermediate positions.
    pub fn translated(self, pos: Point) -> (r: BoundingBox)
        requires
            self.wf(),
            -FX_LIMIT - 2 * FX_ONE <= pos.x <= FX_LIMIT + 2 * FX_ONE,
            -FX_LIMIT - 2 * FX_ONE <= pos.y <= FX_LIMIT + 2 * FX_ONE,
        ensures
            r.wf(),
            r == self.translate_spec(pos),
    {
        BoundingBox {
            min: Point {
                x: fx_clamp_val(self.min.x + pos.x),
                y: fx_clamp_val(self.min.y + pos.y),
            },
            max: Point {
                x: fx_clamp_val(self.max.x + pos.x),
                y: fx_clamp_val(self.max.y + pos.y),
            },
        }
    }

    /// Strict overlap test against another world-space box.
    pub fn intersects(&self, other: &BoundingBox) -> (r: bool)
        ensures
            r == boxes_intersect(*self, *other),
    {
        self.min.x < other.max.x && other.min.x < self.max.x && self.min.y < other.max.y
            && other.min.y < self.max.y
    }
}

} // verus!
