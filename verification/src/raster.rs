//! What holds of every rasterized circle.

use crate::geometry::{keeps_width, row_tiles, scan_from, TileCircle, TileLocation};
use crate::sequences::{lemma_joined_contains, lemma_joined_no_duplicates};
use vstd::prelude::*;

verus! {

/// The tiles of a row are exactly the tiles of that row on the grid whose
/// column lies in the half-open range.
pub proof fn lemma_row_tiles_member(from: int, to: int, y: int, p: TileLocation)
    ensures
        row_tiles(from, to, y).contains(p) <==> (from <= p.x < to && p.y == y),
{
    reveal(row_tiles);
    let row = row_tiles(from, to, y);
    if row.contains(p) {
        let i = choose|i: int| 0 <= i < row.len() && row[i] == p;
        assert(row[i] == p);
    }
    if from <= p.x < to && p.y == y {
        let first = if from < i16::MIN { i16::MIN as int } else { from };
        assert(row[p.x - first] == p);
    }
}

/// The bound on the square of the distance from the centre that every tile
/// of a circle of radius `r` keeps.
pub open spec fn reach(r: int) -> int {
    r * r + r - 1
}

proof fn lemma_square_bound(d: int, w: int)
    requires
        -w <= d <= w,
    ensures
        d * d <= w * w,
{
    assert(d * d <= w * w) by (nonlinear_arith)
        requires
            -w <= d <= w,
    ;
}

/// A tile of the rows at offset `dy` above or below the centre, over columns
/// within `w` of the centre, is no further from the centre than the point
/// `(w, dy)`.
proof fn lemma_band_within(c: TileCircle, w: int, dy: int, row: int, p: TileLocation)
    requires
        w >= 0,
        row == c.y + dy || row == c.y - dy,
        row_tiles(c.x - w, c.x + w, row).contains(p),
    ensures
        c.distance_squared(p.x as int, p.y as int) <= w * w + dy * dy,
{
    lemma_row_tiles_member(c.x - w, c.x + w, row, p);
    lemma_square_bound(p.x - c.x, w);
    assert((p.y - c.y) * (p.y - c.y) == dy * dy) by (nonlinear_arith)
        requires
            p.y - c.y == dy || p.y - c.y == -dy,
    ;
}

proof fn lemma_scan_within_reach(c: TileCircle, x: int, y: int, p: TileLocation)
    requires
        c.r >= 1,
        0 <= y,
        -1 <= x <= c.r,
        x >= y ==> x * x + y * y <= reach(c.r as int),
        scan_from(c.x as int, c.y as int, c.r as int, x, y).contains(p),
    ensures
        c.distance_squared(p.x as int, p.y as int) <= reach(c.r as int),
    decreases x - y + 2,
{
    let cx = c.x as int;
    let cy = c.y as int;
    let r = c.r as int;
    if x >= y {
        let upper = row_tiles(cx - x, cx + x, cy + y);
        let lower = if y != 0 { row_tiles(cx - x, cx + x, cy - y) } else { Seq::empty() };
        let band = upper + lower;
        lemma_joined_contains(upper, lower, p);
        if upper.contains(p) {
            lemma_band_within(c, x, y, cy + y, p);
        } else if lower.contains(p) {
            lemma_band_within(c, x, y, cy - y, p);
        } else if keeps_width(r, x, y) {
            let rest = scan_from(cx, cy, r, x, y + 1);
            lemma_joined_contains(band, rest, p);
            reveal(keeps_width);
            assert(x * x + (y + 1) * (y + 1) <= reach(r)) by (nonlinear_arith)
                requires
                    (x - 1) * (x - 1) + (y + 1) * (y + 1) <= r * r - r,
                    x <= r,
            ;
            lemma_scan_within_reach(c, x, y + 1, p);
        } else {
            let top = row_tiles(cx - y, cx + y, cy + x);
            let bottom = row_tiles(cx - y, cx + y, cy - x);
            let cap = if x > y { top + bottom } else { Seq::empty() };
            let rest = scan_from(cx, cy, r, x - 1, y + 1);
            lemma_joined_contains(band + cap, rest, p);
            lemma_joined_contains(band, cap, p);
            lemma_joined_contains(top, bottom, p);
            if cap.contains(p) {
                if top.contains(p) {
                    lemma_band_within(c, y, x, cy + x, p);
                } else {
                    lemma_band_within(c, y, x, cy - x, p);
                }
            } else {
                assert(x - 1 >= y + 1 ==> (x - 1) * (x - 1) + (y + 1) * (y + 1) <= reach(r))
                    by (nonlinear_arith)
                    requires
                        x * x + y * y <= r * r + r - 1,
                ;
                lemma_scan_within_reach(c, x - 1, y + 1, p);
            }
        }
    }
}

/// Every tile of a rasterized circle lies less than half a tile beyond the
/// radius: the square of its distance from the centre is at most
/// `r * r + r - 1`, which is less than the square of `r + 1/2`.  A circle
/// that has a tile at all has a radius of at least one.
pub proof fn lemma_tiles_within_reach(c: TileCircle, p: TileLocation)
    requires
        c.tiles().contains(p),
    ensures
        c.r >= 1,
        c.distance_squared(p.x as int, p.y as int) <= reach(c.r as int),
        4 * c.distance_squared(p.x as int, p.y as int) < (2 * c.r + 1) * (2 * c.r + 1),
{
    if c.r <= 0 {
        lemma_no_radius_no_tiles(c);
    }
    assert(c.r * c.r + 0 * 0 <= reach(c.r as int)) by (nonlinear_arith)
        requires
            c.r >= 1,
    ;
    lemma_scan_within_reach(c, c.r as int, 0, p);
    assert(4 * (c.r * c.r + c.r - 1) < (2 * c.r + 1) * (2 * c.r + 1)) by (nonlinear_arith);
}

/// A circle of radius zero or less has no tiles, so each of its tiles is
/// nearer to the centre than the radius.
pub proof fn lemma_no_radius_no_tiles(c: TileCircle)
    requires
        c.r <= 0,
    ensures
        c.tiles() == Seq::<TileLocation>::empty(),
        forall|p: TileLocation| c.tiles().contains(p) ==> c.encloses(p.x as int, p.y as int),
{
    let cx = c.x as int;
    let cy = c.y as int;
    if c.r == 0 {
        reveal(row_tiles);
        reveal(keeps_width);
        assert(!keeps_width(0, 0, 0));
        assert(scan_from(cx, cy, 0, -1, 1) =~= Seq::empty());
        assert(row_tiles(cx - 0, cx + 0, cy + 0) =~= Seq::empty());
        assert(scan_from(cx, cy, 0, 0, 0) =~= Seq::empty());
    }
}

/// No tile stands twice in a row.
proof fn lemma_row_tiles_differ(from: int, to: int, y: int)
    ensures
        row_tiles(from, to, y).no_duplicates(),
{
    reveal(row_tiles);
}

/// Two rows, one above and one below the centre at the same distance, hold
/// each tile once.
proof fn lemma_two_rows_differ(from: int, to: int, cy: int, dy: int)
    requires
        dy != 0,
    ensures
        (row_tiles(from, to, cy + dy) + row_tiles(from, to, cy - dy)).no_duplicates(),
{
    let upper = row_tiles(from, to, cy + dy);
    let lower = row_tiles(from, to, cy - dy);
    lemma_row_tiles_differ(from, to, cy + dy);
    lemma_row_tiles_differ(from, to, cy - dy);
    assert forall|p: TileLocation| !(upper.contains(p) && lower.contains(p)) by {
        lemma_row_tiles_member(from, to, cy + dy, p);
        lemma_row_tiles_member(from, to, cy - dy, p);
    }
    lemma_joined_no_duplicates(upper, lower);
}

/// The rows of a scan: from the state with half-width `x` at row offset `y`
/// on, every tile lies at least `y` and at most `x` rows from the centre.
proof fn lemma_scan_rows(cx: int, cy: int, r: int, x: int, y: int, p: TileLocation)
    requires
        0 <= y,
        scan_from(cx, cy, r, x, y).contains(p),
    ensures
        y <= x,
        p.y - cy >= y || cy - p.y >= y,
        -x <= p.y - cy <= x,
    decreases x - y + 2,
{
    if x >= y {
        let upper = row_tiles(cx - x, cx + x, cy + y);
        let lower = if y != 0 { row_tiles(cx - x, cx + x, cy - y) } else { Seq::empty() };
        let band = upper + lower;
        lemma_joined_contains(upper, lower, p);
        lemma_row_tiles_member(cx - x, cx + x, cy + y, p);
        lemma_row_tiles_member(cx - x, cx + x, cy - y, p);
        if band.contains(p) {
        } else if keeps_width(r, x, y) {
            lemma_joined_contains(band, scan_from(cx, cy, r, x, y + 1), p);
            lemma_scan_rows(cx, cy, r, x, y + 1, p);
        } else {
            let top = row_tiles(cx - y, cx + y, cy + x);
            let bottom = row_tiles(cx - y, cx + y, cy - x);
            let cap = if x > y { top + bottom } else { Seq::empty() };
            lemma_joined_contains(band + cap, scan_from(cx, cy, r, x - 1, y + 1), p);
            lemma_joined_contains(band, cap, p);
            lemma_joined_contains(top, bottom, p);
            lemma_row_tiles_member(cx - y, cx + y, cy + x, p);
            lemma_row_tiles_member(cx - y, cx + y, cy - x, p);
            if !cap.contains(p) {
                lemma_scan_rows(cx, cy, r, x - 1, y + 1, p);
            }
        }
    }
}

proof fn lemma_scan_writes_once(cx: int, cy: int, r: int, x: int, y: int)
    requires
        0 <= y,
    ensures
        scan_from(cx, cy, r, x, y).no_duplicates(),
    decreases x - y + 2,
{
    if x >= y {
        let upper = row_tiles(cx - x, cx + x, cy + y);
        let lower = if y != 0 { row_tiles(cx - x, cx + x, cy - y) } else { Seq::empty() };
        let band = upper + lower;
        if y != 0 {
            lemma_two_rows_differ(cx - x, cx + x, cy, y);
        } else {
            lemma_row_tiles_differ(cx - x, cx + x, cy + y);
            lemma_joined_no_duplicates(upper, lower);
        }
        assert forall|p: TileLocation| band.contains(p) implies p.y - cy == y || cy - p.y
            == y by {
            lemma_joined_contains(upper, lower, p);
            lemma_row_tiles_member(cx - x, cx + x, cy + y, p);
            lemma_row_tiles_member(cx - x, cx + x, cy - y, p);
        }
        if keeps_width(r, x, y) {
            let rest = scan_from(cx, cy, r, x, y + 1);
            lemma_scan_writes_once(cx, cy, r, x, y + 1);
            assert forall|p: TileLocation| !(band.contains(p) && rest.contains(p)) by {
                if rest.contains(p) {
                    lemma_scan_rows(cx, cy, r, x, y + 1, p);
                }
            }
            lemma_joined_no_duplicates(band, rest);
        } else {
            let top = row_tiles(cx - y, cx + y, cy + x);
            let bottom = row_tiles(cx - y, cx + y, cy - x);
            let cap = if x > y { top + bottom } else { Seq::empty() };
            let rest = scan_from(cx, cy, r, x - 1, y + 1);
            if x > y {
                lemma_two_rows_differ(cx - y, cx + y, cy, x);
            }
            assert forall|p: TileLocation| cap.contains(p) implies x > y && (p.y - cy == x || cy
                - p.y == x) by {
                lemma_joined_contains(top, bottom, p);
                lemma_row_tiles_member(cx - y, cx + y, cy + x, p);
                lemma_row_tiles_member(cx - y, cx + y, cy - x, p);
            }
            lemma_joined_no_duplicates(band, cap);
            lemma_scan_writes_once(cx, cy, r, x - 1, y + 1);
            assert forall|p: TileLocation| !((band + cap).contains(p) && rest.contains(p)) by {
                lemma_joined_contains(band, cap, p);
                if rest.contains(p) {
                    lemma_scan_rows(cx, cy, r, x - 1, y + 1, p);
                }
            }
            lemma_joined_no_duplicates(band + cap, rest);
        }
    }
}

/// A rasterized circle holds each of its tiles once.
pub proof fn lemma_tiles_written_once(c: TileCircle)
    ensures
        c.tiles().no_duplicates(),
{
    lemma_scan_writes_once(c.x as int, c.y as int, c.r as int, c.r as int, 0);
}

} // verus!
