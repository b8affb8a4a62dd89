use canvas_trace::geometry::{TileCircle, TileLocation, TileRegion};

fn at(x: i16, y: i16) -> TileLocation {
    TileLocation { x, y }
}

fn rect(left: i16, top: i16, right: i16, bottom: i16) -> TileRegion {
    TileRegion { top, left, bottom, right }
}

#[test]
fn rectangle_contains_exactly_the_points_within_its_edges() {
    let r = rect(2, 3, 5, 7);
    for x in -1..9i16 {
        for y in -1..11i16 {
            let expected = 2 <= x && x <= 5 && 3 <= y && y <= 7;
            assert_eq!(r.contains(&at(x, y)), expected, "({}, {})", x, y);
            assert_eq!(r.contains_point(x, y), expected, "({}, {})", x, y);
            assert_eq!(r.contains_wide(x as i32, y as i32), expected);
        }
    }
}

#[test]
fn rectangle_contains_its_corners() {
    let r = rect(0, 0, 10, 10);
    assert!(r.contains(&at(0, 0)));
    assert!(r.contains(&at(10, 0)));
    assert!(r.contains(&at(0, 10)));
    assert!(r.contains(&at(10, 10)));
    assert!(!r.contains(&at(11, 10)));
    assert!(!r.contains(&at(10, 11)));
    assert!(!r.contains(&at(-1, 0)));
    assert!(!r.contains(&at(0, -1)));
}

#[test]
fn rectangle_with_edges_out_of_order_contains_nothing() {
    let r = rect(10, 10, 0, 0);
    assert!(!r.contains(&at(5, 5)));
    assert!(!r.contains(&at(0, 0)));
    assert!(!r.contains(&at(10, 10)));
}

#[test]
fn rectangle_at_the_limits_of_the_grid() {
    let r = rect(i16::MIN, i16::MIN, i16::MAX, i16::MAX);
    assert!(r.contains(&at(i16::MIN, i16::MAX)));
    assert!(r.contains(&at(0, 0)));
    assert!(!r.contains_wide(32768, 0));
    assert!(!r.contains_wide(0, -32769));
}

#[test]
fn rectangles_that_share_a_corner_region_intersect() {
    let a = rect(0, 0, 10, 10);
    let b = rect(5, 5, 15, 15);
    assert!(a.intersects(&b));
    assert!(b.intersects(&a));
}

#[test]
fn rectangle_within_another_intersects_both_ways() {
    let outer = rect(0, 0, 100, 100);
    let inner = rect(40, 40, 60, 60);
    assert!(outer.intersects(&inner));
    assert!(inner.intersects(&outer));
}

#[test]
fn rectangles_that_touch_at_one_point_intersect() {
    let a = rect(0, 0, 10, 10);
    let b = rect(10, 10, 20, 20);
    assert!(a.intersects(&b));
}

#[test]
fn rectangles_apart_do_not_intersect() {
    let a = rect(0, 0, 10, 10);
    let b = rect(11, 0, 20, 10);
    assert!(!a.intersects(&b));
    assert!(!b.intersects(&a));
}

#[test]
fn rectangles_that_cross_without_a_corner_inside_are_missed() {
    // A wide bar and a tall bar that cross like a plus sign share the tiles
    // in the middle, but no corner of one lies within the other.
    let wide = rect(0, 4, 10, 6);
    let tall = rect(4, 0, 6, 10);
    assert!(!wide.intersects(&tall));
    assert!(!tall.intersects(&wide));
}

#[test]
fn circle_contains_points_nearer_than_its_radius() {
    let c = TileCircle { x: 10, y: 20, r: 5 };
    assert!(c.contains_point(10, 20));
    assert!(c.contains_point(14, 20));
    assert!(c.contains_point(13, 23));
    assert!(c.contains_point(7, 17));
}

#[test]
fn circle_excludes_points_at_its_radius() {
    let c = TileCircle { x: 10, y: 20, r: 5 };
    assert!(!c.contains_point(15, 20));
    assert!(!c.contains_point(5, 20));
    assert!(!c.contains_point(10, 25));
    assert!(!c.contains_point(13, 24));
    assert!(!c.contains_point(14, 23));
    assert!(!c.contains_point(16, 20));
}

#[test]
fn circle_without_radius_contains_nothing() {
    assert!(!TileCircle { x: 0, y: 0, r: 0 }.contains_point(0, 0));
    assert!(!TileCircle { x: 0, y: 0, r: -3 }.contains_point(0, 0));
    assert!(!TileCircle { x: 0, y: 0, r: -3 }.contains_point(1, 1));
}

#[test]
fn circle_contains_point_over_the_whole_grid() {
    let c = TileCircle { x: i16::MIN, y: i16::MIN, r: i16::MAX };
    assert!(c.contains_point(i16::MIN, i16::MIN));
    assert!(c.contains_point(i16::MIN + 32766, i16::MIN));
    assert!(!c.contains_point(i16::MIN + 32767, i16::MIN));
    assert!(!c.contains_point(i16::MAX, i16::MAX));
}

#[test]
fn circle_agrees_with_the_distance_rule() {
    let c = TileCircle { x: 3, y: -2, r: 6 };
    for x in -10..16i16 {
        for y in -15..11i16 {
            let dx = (x - 3) as f64;
            let dy = (y + 2) as f64;
            let expected = (dx * dx + dy * dy).sqrt() < 6.0;
            assert_eq!(c.contains_point(x, y), expected, "({}, {})", x, y);
        }
    }
}

#[test]
fn circle_intersects_rectangle_with_a_corner_inside_the_circle() {
    let c = TileCircle { x: 0, y: 0, r: 5 };
    assert!(c.intersects(&rect(3, 3, 50, 50)));
    assert!(c.intersects(&rect(-50, -50, -3, -3)));
}

#[test]
fn circle_intersects_rectangle_that_holds_one_of_its_four_extremes() {
    let c = TileCircle { x: 0, y: 0, r: 5 };
    // (5, 0) is where the circle reaches furthest to the right; no corner
    // of the rectangle is nearer to the centre than the radius.
    assert!(c.intersects(&rect(5, 0, 6, 0)));
    assert!(c.intersects(&rect(5, -1, 9, 1)));
    assert!(c.intersects(&rect(-9, -1, -5, 1)));
    assert!(c.intersects(&rect(-1, 5, 1, 9)));
    assert!(c.intersects(&rect(-1, -9, 1, -5)));
    // The circle lies within the rectangle.
    assert!(c.intersects(&rect(-20, -20, 20, 20)));
}

#[test]
fn circle_does_not_intersect_by_the_corners_of_the_square_around_it() {
    let c = TileCircle { x: 0, y: 0, r: 5 };
    // (5, 5) is a corner of the square around the circle, not a point of it.
    assert!(!c.intersects(&rect(5, 5, 9, 9)));
    assert!(!c.intersects(&rect(-9, -9, -5, -5)));
    assert!(!c.intersects(&rect(5, -9, 9, -5)));
    assert!(!c.intersects(&rect(-9, 5, -5, 9)));
}

#[test]
fn circle_apart_from_rectangle_does_not_intersect() {
    let c = TileCircle { x: 0, y: 0, r: 5 };
    assert!(!c.intersects(&rect(6, 6, 9, 9)));
    assert!(!c.intersects(&rect(6, 0, 9, 0)));
    assert!(!c.intersects(&rect(100, 100, 200, 200)));
}

#[test]
fn circle_without_radius_intersects_where_its_centre_lies() {
    // With radius zero the four extremes are the centre itself.
    let c = TileCircle { x: 3, y: 4, r: 0 };
    assert!(c.intersects(&rect(0, 0, 10, 10)));
    assert!(c.intersects(&rect(3, 4, 3, 4)));
    assert!(!c.intersects(&rect(4, 4, 10, 10)));
}

#[test]
fn circle_crossing_an_edge_without_a_sampled_point_is_missed() {
    // The circle reaches over the left edge of a tall rectangle, but holds
    // none of its corners, and none of its four extremes lies in the
    // rectangle.
    let c = TileCircle { x: 0, y: 0, r: 5 };
    assert!(!c.intersects(&rect(3, -50, 4, 50)));
}

#[test]
fn circle_intersects_at_the_limits_of_the_grid() {
    let c = TileCircle { x: i16::MAX, y: i16::MAX, r: i16::MAX };
    // The leftmost point of the circle is (0, 32767).
    assert!(c.intersects(&rect(0, i16::MAX, 0, i16::MAX)));
    assert!(c.intersects(&rect(i16::MAX, 0, i16::MAX, 0)));
    assert!(!c.intersects(&rect(0, 0, 0, 0)));
    let d = TileCircle { x: i16::MIN, y: i16::MIN, r: i16::MAX };
    // The rightmost point of the circle is (-1, -32768).
    assert!(d.intersects(&rect(-1, i16::MIN, -1, i16::MIN)));
    assert!(!d.intersects(&rect(-1, -1, -1, -1)));
    assert!(!d.intersects(&rect(0, 0, 5, 5)));
}

#[test]
fn circle_of_radius_one_rasterizes_to_two_tiles() {
    let c = TileCircle { x: 7, y: 9, r: 1 };
    assert_eq!(c.points(), vec![at(6, 9), at(7, 9)]);
}

#[test]
fn circle_of_radius_two_rasterizes_row_by_row() {
    let c = TileCircle { x: 0, y: 0, r: 2 };
    let expected = vec![
        at(-2, 0), at(-1, 0), at(0, 0), at(1, 0),
        at(-2, 1), at(-1, 1), at(0, 1), at(1, 1),
        at(-2, -1), at(-1, -1), at(0, -1), at(1, -1),
        at(-1, 2), at(0, 2),
        at(-1, -2), at(0, -2),
    ];
    assert_eq!(c.points(), expected);
}

#[test]
fn circle_of_radius_three_rasterizes_row_by_row() {
    let c = TileCircle { x: 10, y: -10, r: 3 };
    let mut expected = Vec::new();
    for x in 7..13 {
        expected.push(at(x, -10));
    }
    for x in 7..13 {
        expected.push(at(x, -9));
    }
    for x in 7..13 {
        expected.push(at(x, -11));
    }
    for x in 9..11 {
        expected.push(at(x, -7));
    }
    for x in 9..11 {
        expected.push(at(x, -13));
    }
    for x in 8..12 {
        expected.push(at(x, -8));
    }
    for x in 8..12 {
        expected.push(at(x, -12));
    }
    assert_eq!(c.points(), expected);
}

#[test]
fn circle_without_radius_rasterizes_to_nothing() {
    assert!(TileCircle { x: 5, y: 5, r: 0 }.points().is_empty());
    assert!(TileCircle { x: 5, y: 5, r: -1 }.points().is_empty());
    assert!(TileCircle { x: 5, y: 5, r: i16::MIN }.points().is_empty());
}

#[test]
fn circle_rasterizes_the_same_each_time() {
    let c = TileCircle { x: -40, y: 12, r: 17 };
    let first = c.points();
    let second = c.points();
    assert_eq!(first, second);
    assert!(!first.is_empty());
}

#[test]
fn rasterized_tiles_lie_within_half_a_tile_of_the_radius() {
    for r in 1..40i16 {
        let c = TileCircle { x: 100, y: -100, r };
        let reach = (r as i64) * (r as i64) + (r as i64) - 1;
        for p in c.points() {
            let dx = (p.x - 100) as i64;
            let dy = (p.y + 100) as i64;
            assert!(dx * dx + dy * dy <= reach, "r = {}, tile ({}, {})", r, p.x, p.y);
        }
    }
}

#[test]
fn rasterized_circle_holds_its_left_rim_and_not_its_right() {
    let c = TileCircle { x: 0, y: 0, r: 4 };
    let tiles = c.points();
    assert!(tiles.contains(&at(-4, 0)));
    assert!(!tiles.contains(&at(4, 0)));
    assert!(tiles.contains(&at(3, 0)));
    // The tile on the left rim is as far from the centre as the radius.
    assert!(!c.contains_point(-4, 0));
}

#[test]
fn rasterized_tiles_are_all_different() {
    for r in 0..30i16 {
        let tiles = TileCircle { x: 0, y: 0, r }.points();
        for i in 0..tiles.len() {
            for j in 0..i {
                assert_ne!(tiles[i], tiles[j], "r = {}", r);
            }
        }
    }
}

#[test]
fn rasterized_circle_is_cut_at_the_limits_of_the_grid() {
    let c = TileCircle { x: i16::MAX, y: i16::MIN, r: 2 };
    let expected = vec![
        at(32765, -32768), at(32766, -32768), at(32767, -32768),
        at(32765, -32767), at(32766, -32767), at(32767, -32767),
        at(32766, -32766), at(32767, -32766),
    ];
    assert_eq!(c.points(), expected);
}

#[test]
fn line_points_leaves_out_the_last_column() {
    let c = TileCircle { x: 0, y: 0, r: 0 };
    let mut pixels = vec![at(9, 9)];
    c.line_points(&mut pixels, 3, 6, 2);
    assert_eq!(pixels, vec![at(9, 9), at(3, 2), at(4, 2), at(5, 2)]);
}

#[test]
fn line_points_of_an_empty_range_adds_nothing() {
    let c = TileCircle { x: 0, y: 0, r: 0 };
    let mut pixels = Vec::new();
    c.line_points(&mut pixels, 3, 3, 2);
    c.line_points(&mut pixels, 6, 3, 2);
    assert!(pixels.is_empty());
}

#[test]
fn line_points_off_the_grid_adds_nothing() {
    let c = TileCircle { x: 0, y: 0, r: 0 };
    let mut pixels = Vec::new();
    c.line_points(&mut pixels, 0, 5, 32768);
    c.line_points(&mut pixels, 0, 5, -32769);
    c.line_points(&mut pixels, 32768, 32775, 0);
    c.line_points(&mut pixels, -32780, -32768, 0);
    assert!(pixels.is_empty());
    c.line_points(&mut pixels, 32766, 32775, 0);
    assert_eq!(pixels, vec![at(32766, 0), at(32767, 0)]);
}
