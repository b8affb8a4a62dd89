//! Tiles, rectangles and circles on the canvas grid.

use vstd::prelude::*;

verus! {

/// One tile of the canvas.
#[derive(Clone, Copy, Debug, PartialEq, Eq, Structural, Hash)]
pub struct TileLocation {
    pub x: i16,
    pub y: i16,
}

/// An axis-aligned rectangle of tiles, given by its edges.
///
/// Nothing forces `left <= right` or `top <= bottom`; a rectangle whose edges
/// are out of order contains no point.
#[derive(Clone, Copy, Debug, PartialEq, Eq, Structural, Hash)]
pub struct TileRegion {
    pub top: i16,
    pub left: i16,
    pub bottom: i16,
    pub right: i16,
}

impl TileRegion {
    /// The point `(x, y)` lies within the edges, the edges included.
    pub open spec fn holds(&self, x: int, y: int) -> bool {
        self.left <= x <= self.right && self.top <= y <= self.bottom
    }

    /// One of the four corners of `other` lies within `self`.
    pub open spec fn holds_corner_of(&self, other: TileRegion) -> bool {
        ||| self.holds(other.left as int, other.top as int)
        ||| self.holds(other.right as int, other.top as int)
        ||| self.holds(other.right as int, other.bottom as int)
        ||| self.holds(other.left as int, other.bottom as int)
    }

    /// The corner test for overlap: a corner of one rectangle lies within the
    /// other.
    ///
    /// This is an approximation of overlap.  Two rectangles that cross like a
    /// plus sign share tiles, yet neither holds a corner of the other, and
    /// the test says no.
    pub open spec fn meets(&self, other: TileRegion) -> bool {
        self.holds_corner_of(other) || other.holds_corner_of(*self)
    }

    /// Whether the tile lies within the rectangle, edges included.
    pub fn contains(&self, location: &TileLocation) -> (inside: bool)
        ensures
            inside == (self.left <= location.x <= self.right && self.top <= location.y
                <= self.bottom),
    {
        self.contains_point(location.x, location.y)
    }

    /// Whether the point `(x, y)` lies within the rectangle, edges included.
    pub fn contains_point(&self, x: i16, y: i16) -> (inside: bool)
        ensures
            inside == self.holds(x as int, y as int),
    {
        if x < self.left {
            return false;
        }
        if y < self.top {
            return false;
        }
        if x > self.right {
            return false;
        }
        if y > self.bottom {
            return false;
        }
        true
    }

    /// Like [`TileRegion::contains_point`], for a point that may lie off the
    /// sixteen-bit grid.
    pub fn contains_wide(&self, x: i32, y: i32) -> (inside: bool)
        ensures
            inside == self.holds(x as int, y as int),
    {
        self.left as i32 <= x && x <= self.right as i32 && self.top as i32 <= y && y
            <= self.bottom as i32
    }

    /// The corner test for overlap with `region`; see [`TileRegion::meets`]
    /// for what it misses.
    pub fn intersects(&self, region: &TileRegion) -> (overlap: bool)
        ensures
            overlap == self.meets(*region),
    {
        self.contains_point(region.left, region.top) || self.contains_point(
            region.right,
            region.top,
        ) || self.contains_point(region.right, region.bottom) || self.contains_point(
            region.left,
            region.bottom,
        ) || region.contains_point(self.left, self.top) || region.contains_point(
            self.right,
            self.top,
        ) || region.contains_point(self.right, self.bottom) || region.contains_point(
            self.left,
            self.bottom,
        )
    }
}

/// A circle of tiles, given by its centre and radius.
#[derive(Clone, Copy, Debug, PartialEq, Eq, Structural, Hash)]
pub struct TileCircle {
    pub x: i16,
    pub y: i16,
    pub r: i16,
}

/// What one record of the log places on the canvas.
#[derive(Clone, Copy, Debug, PartialEq, Eq, Structural, Hash)]
pub enum LineCoordinate {
    Tile(TileLocation),
    Region(TileRegion),
    Circle(TileCircle),
}

impl LineCoordinate {
    /// The placement writes the tile `at`.  A tile is written by itself; a
    /// rectangle writes the tiles from its left edge up to, not including,
    /// its right edge, and from its top edge up to, not including, its
    /// bottom edge; a circle writes the tiles of its rasterization.
    pub open spec fn covers(&self, at: TileLocation) -> bool {
        match *self {
            LineCoordinate::Tile(t) => at == t,
            LineCoordinate::Region(r) => r.left <= at.x < r.right && r.top <= at.y < r.bottom,
            LineCoordinate::Circle(c) => c.tiles().contains(at),
        }
    }
}

/// The coordinate lies on the grid.
pub open spec fn on_grid(v: int) -> bool {
    i16::MIN <= v <= i16::MAX
}

/// The tiles of row `y` from column `from` up to, not including, column
/// `to`, from left to right.  The canvas ends where sixteen-bit coordinates
/// end: what lies beyond is left out.
#[verifier::opaque]
pub open spec fn row_tiles(from: int, to: int, y: int) -> Seq<TileLocation> {
    let first = if from < i16::MIN { i16::MIN as int } else { from };
    let end = if to > i16::MAX + 1 { i16::MAX + 1 } else { to };
    if on_grid(y) && first < end {
        Seq::new((end - first) as nat, |i: int| TileLocation { x: (first + i) as i16, y: y as i16 })
    } else {
        Seq::empty()
    }
}

/// Whether the scan of a circle of radius `r` keeps its half-width `x` when
/// it steps from row `y` to row `y + 1`; otherwise the half-width shrinks by
/// one.
#[verifier::opaque]
pub open spec fn keeps_width(r: int, x: int, y: int) -> bool {
    (x - 1) * (x - 1) + (y + 1) * (y + 1) <= r * r - r
}

/// The tiles that the scan of the circle with centre `(cx, cy)` and radius
/// `r` writes from the state with half-width `x` at row offset `y` on.
///
/// In each state it writes the rows `cy + y` and `cy - y` (once, where they
/// are the same row) over the columns from `cx - x` up to, not including,
/// `cx + x`.  When the half-width shrinks and `x > y`, it also writes the
/// rows `cy + x` and `cy - x` over the columns from `cx - y` up to, not
/// including, `cx + y`.  It ends when the row offset passes the half-width.
pub open spec fn scan_from(cx: int, cy: int, r: int, x: int, y: int) -> Seq<TileLocation>
    decreases x - y + 2,
{
    if x < y {
        Seq::empty()
    } else {
        let band = row_tiles(cx - x, cx + x, cy + y) + (if y != 0 {
            row_tiles(cx - x, cx + x, cy - y)
        } else {
            Seq::empty()
        });
        if keeps_width(r, x, y) {
            band + scan_from(cx, cy, r, x, y + 1)
        } else {
            let cap = if x > y {
                row_tiles(cx - y, cx + y, cy + x) + row_tiles(cx - y, cx + y, cy - x)
            } else {
                Seq::empty()
            };
            band + cap + scan_from(cx, cy, r, x - 1, y + 1)
        }
    }
}

impl TileCircle {
    /// The square of the distance from the centre to `(x, y)`.
    pub open spec fn distance_squared(&self, x: int, y: int) -> int {
        (x - self.x) * (x - self.x) + (y - self.y) * (y - self.y)
    }

    /// The point `(x, y)` is nearer to the centre than the radius.  A point
    /// at exactly the radius is outside.
    pub open spec fn encloses(&self, x: int, y: int) -> bool {
        self.r > 0 && self.distance_squared(x, y) < self.r * self.r
    }

    /// The sampling test for overlap of the circle with `region`: the circle
    /// encloses a corner of the rectangle, or the rectangle holds one of the
    /// four points where the circle reaches furthest along an axis,
    /// `(x + r, y)`, `(x - r, y)`, `(x, y + r)` and `(x, y - r)`.  Like
    /// [`TileRegion::meets`] it is an approximation and misses overlaps in
    /// which none of these eight points takes part.
    pub open spec fn touches(&self, region: TileRegion) -> bool {
        ||| self.encloses(region.left as int, region.top as int)
        ||| self.encloses(region.right as int, region.top as int)
        ||| self.encloses(region.right as int, region.bottom as int)
        ||| self.encloses(region.left as int, region.bottom as int)
        ||| region.holds(self.x + self.r, self.y as int)
        ||| region.holds(self.x - self.r, self.y as int)
        ||| region.holds(self.x as int, self.y + self.r)
        ||| region.holds(self.x as int, self.y - self.r)
    }

    /// The tiles of the rasterized circle, in the order in which the scan
    /// writes them.
    pub open spec fn tiles(&self) -> Seq<TileLocation> {
        scan_from(self.x as int, self.y as int, self.r as int, self.r as int, 0)
    }

    /// Whether `(x, y)` is nearer to the centre than the radius.
    pub fn contains_point(&self, x: i16, y: i16) -> (inside: bool)
        ensures
            inside == self.encloses(x as int, y as int),
    {
        let dx: i64 = x as i64 - self.x as i64;
        let dy: i64 = y as i64 - self.y as i64;
        let r: i64 = self.r as i64;
        assert(0 <= dx * dx <= 65535 * 65535) by (nonlinear_arith)
            requires
                -65535 <= dx <= 65535,
        ;
        assert(0 <= dy * dy <= 65535 * 65535) by (nonlinear_arith)
            requires
                -65535 <= dy <= 65535,
        ;
        assert(0 <= r * r <= 32768 * 32768) by (nonlinear_arith)
            requires
                -32768 <= r <= 32767,
        ;
        r > 0 && dx * dx + dy * dy < r * r
    }

    /// The sampling test for overlap with `region`; see
    /// [`TileCircle::touches`] for the points it looks at and what it
    /// misses.
    pub fn intersects(&self, region: &TileRegion) -> (overlap: bool)
        ensures
            overlap == self.touches(*region),
    {
        let x: i32 = self.x as i32;
        let y: i32 = self.y as i32;
        let r: i32 = self.r as i32;
        self.contains_point(region.left, region.top) || self.contains_point(
            region.right,
            region.top,
        ) || self.contains_point(region.right, region.bottom) || self.contains_point(
            region.left,
            region.bottom,
        ) || region.contains_wide(x + r, y) || region.contains_wide(x - r, y)
            || region.contains_wide(x, y + r) || region.contains_wide(x, y - r)
    }

    /// Appends the tiles of row `y` from column `from_x` up to, not
    /// including, column `to_x` to `pixels`, as far as they lie on the grid.
    pub fn line_points(&self, pixels: &mut Vec<TileLocation>, from_x: i32, to_x: i32, y: i32)
        ensures
            final(pixels)@ == old(pixels)@ + row_tiles(from_x as int, to_x as int, y as int),
    {
        reveal(row_tiles);
        if y < -32768 || y > 32767 {
            assert(pixels@ =~= old(pixels)@ + row_tiles(from_x as int, to_x as int, y as int));
            return;
        }
        let first: i32 = if from_x < -32768 { -32768 } else { from_x };
        let end: i32 = if to_x > 32768 { 32768 } else { to_x };
        let ghost row = row_tiles(from_x as int, to_x as int, y as int);
        let mut x: i32 = first;
        while x < end
            invariant
                first <= x,
                first < end ==> x <= end,
                -32768 <= first,
                end <= 32768,
                -32768 <= y <= 32767,
                row == row_tiles(from_x as int, to_x as int, y as int),
                first == (if from_x < -32768 { -32768 } else { from_x as int }),
                end == (if to_x > 32768 { 32768 } else { to_x as int }),
                first < end ==> pixels@ == old(pixels)@ + row.take(x - first),
                first >= end ==> pixels@ == old(pixels)@,
            decreases end - x,
        {
            pixels.push(TileLocation { x: x as i16, y: y as i16 });
            proof {
                reveal(row_tiles);
                assert(row.take(x + 1 - first) =~= row.take(x - first).push(row[x - first]));
            }
            x = x + 1;
        }
        proof {
            if first < end {
                assert(row.take(x - first) =~= row);
            } else {
                assert(old(pixels)@ + row =~= old(pixels)@);
            }
        }
    }

    /// Rasterizes the circle: the tiles that a placement of this shape
    /// writes, in scan order.
    ///
    /// The result is a function of the circle alone.  A radius of zero or
    /// less yields no tile, and tiles off the grid are left out.
    pub fn points(&self) -> (pixels: Vec<TileLocation>)
        ensures
            pixels@ == self.tiles(),
    {
        let mut pixels: Vec<TileLocation> = Vec::new();
        if self.r < 0 {
            return pixels;
        }
        let cx: i32 = self.x as i32;
        let cy: i32 = self.y as i32;
        let ghost r: int = self.r as int;
        let mut x: i32 = self.r as i32;
        let mut y: i32 = 0;
        let mut radius_error: i64 = 1 - x as i64;
        proof {
            lemma_error_start(r);
            assert(pixels@ + scan_from(cx as int, cy as int, r, x as int, y as int)
                =~= self.tiles());
        }
        while x >= y
            invariant
                cx == self.x,
                cy == self.y,
                r == self.r,
                0 <= y,
                -1 <= x <= r,
                y <= x + 2,
                radius_error == scan_error(r, x as int, y as int),
                pixels@ + scan_from(cx as int, cy as int, r, x as int, y as int) == self.tiles(),
            decreases x - y + 2,
        {
            let ghost before = pixels@;
            let ghost x0 = x as int;
            let ghost y0 = y as int;
            proof {
                lemma_error_step(r, x0, y0);
            }
            self.line_points(&mut pixels, cx - x, cx + x, cy + y);
            if y != 0 {
                self.line_points(&mut pixels, cx - x, cx + x, cy - y);
            }
            y = y + 1;
            if radius_error < 0 {
                radius_error = radius_error + 2 * (y as i64) + 1;
                assert(before + scan_from(cx as int, cy as int, r, x0, y0) =~= pixels@
                    + scan_from(cx as int, cy as int, r, x as int, y as int));
            } else {
                if x >= y {
                    self.line_points(&mut pixels, cx - y + 1, cx + y - 1, cy + x);
                    self.line_points(&mut pixels, cx - y + 1, cx + y - 1, cy - x);
                }
                x = x - 1;
                radius_error = radius_error + 2 * ((y - x + 1) as i64);
                assert(before + scan_from(cx as int, cy as int, r, x0, y0) =~= pixels@
                    + scan_from(cx as int, cy as int, r, x as int, y as int));
            }
        }
        assert(pixels@ + scan_from(cx as int, cy as int, r, x as int, y as int) =~= pixels@);
        pixels
    }
}

/// The running error term of the scan: negative exactly when the scan keeps
/// its half-width.
#[verifier::opaque]
spec fn scan_error(r: int, x: int, y: int) -> int {
    (x - 1) * (x - 1) + (y + 1) * (y + 1) - (r * r - r + 1)
}

proof fn lemma_error_start(r: int)
    ensures
        scan_error(r, r, 0) == 1 - r,
{
    reveal(scan_error);
    assert((r - 1) * (r - 1) + (0 + 1) * (0 + 1) - (r * r - r + 1) == 1 - r) by (nonlinear_arith);
}

/// How the error term moves with the scan, and that it stays far from the
/// limits of sixty-four bits.
proof fn lemma_error_step(r: int, x: int, y: int)
    requires
        -32768 <= r <= 32767,
        -1 <= x <= r,
        0 <= y <= x + 2,
    ensures
        keeps_width(r, x, y) <==> scan_error(r, x, y) < 0,
        scan_error(r, x, y + 1) == scan_error(r, x, y) + 2 * (y + 1) + 1,
        scan_error(r, x - 1, y + 1) == scan_error(r, x, y) + 2 * ((y + 1) - (x - 1) + 1),
        -0x1_0000_0000 <= scan_error(r, x, y) <= 0x1_0000_0000,
{
    reveal(scan_error);
    reveal(keeps_width);
    let a = (x - 1) * (x - 1);
    let b = (y + 1) * (y + 1);
    let c = r * r;
    assert(0 <= a <= 32768 * 32768) by (nonlinear_arith)
        requires
            a == (x - 1) * (x - 1),
            -2 <= x - 1 <= 32767,
    ;
    assert(0 <= b <= 32770 * 32770) by (nonlinear_arith)
        requires
            b == (y + 1) * (y + 1),
            0 <= y + 1 <= 32770,
    ;
    assert(0 <= c <= 32768 * 32768) by (nonlinear_arith)
        requires
            c == r * r,
            -32768 <= r <= 32767,
    ;
    assert((y + 2) * (y + 2) == b + 2 * (y + 1) + 1) by (nonlinear_arith)
        requires
            b == (y + 1) * (y + 1),
    ;
    assert((x - 2) * (x - 2) == a - 2 * (x - 1) + 1) by (nonlinear_arith)
        requires
            a == (x - 1) * (x - 1),
    ;
    assert(scan_error(r, x, y + 1) == (x - 1) * (x - 1) + (y + 1 + 1) * (y + 1 + 1) - (r * r - r
        + 1));
    assert(scan_error(r, x - 1, y + 1) == (x - 1 - 1) * (x - 1 - 1) + (y + 1 + 1) * (y + 1 + 1)
        - (r * r - r + 1));
}

} // verus!
