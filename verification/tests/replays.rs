use canvas_trace::geometry::{LineCoordinate, TileCircle, TileLocation, TileRegion};
use canvas_trace::record::{CanvasLine, ParseError, PlaceDataSet};
use canvas_trace::replay::{
    erase_shape, find_remaining_tiles, write_shape, Reconstruction, WHITEOUT_LINE_2022,
    WHITEOUT_LINE_2023,
};
use canvas_trace::tiles::TileMap;

fn at(x: i16, y: i16) -> TileLocation {
    TileLocation { x, y }
}

fn sorted(map: &TileMap) -> Vec<(i16, i16, String)> {
    let mut entries: Vec<(i16, i16, String)> =
        map.entries().into_iter().map(|(p, text)| (p.x, p.y, text)).collect();
    entries.sort();
    entries
}

fn entry(x: i16, y: i16, text: &str) -> (i16, i16, String) {
    (x, y, text.to_string())
}

fn lines(list: &[&str]) -> Vec<String> {
    list.iter().map(|s| s.to_string()).collect()
}

const YEAR: PlaceDataSet = PlaceDataSet::Place2022;

const THREE: [&str; 3] =
    ["t1,userA,#FFF,\"5,5\"", "t2,userB,#000,\"5,5\"", "t3,userA,#AAA,\"6,6\""];

#[test]
fn three_lines_with_the_whiteout_at_line_two() {
    // From line two on the tiles of the whiteout stay as they are: the
    // second line no longer takes (5,5) away, the third no longer adds (6,6).
    let found = find_remaining_tiles("userA", &lines(&THREE), &YEAR, 2);
    assert_eq!(found.tiles_placed, 2);
    assert!(found.reached_whiteout);
    assert_eq!(sorted(&found.whiteout_tiles), vec![entry(5, 5, "#FFF")]);
    assert_eq!(sorted(&found.end_tiles), vec![entry(6, 6, "t3")]);
}

#[test]
fn three_lines_with_the_whiteout_behind_them() {
    // (5,5) is overwritten by userB before the whiteout, (6,6) survives.
    let found = find_remaining_tiles("userA", &lines(&THREE), &YEAR, 4);
    assert_eq!(found.tiles_placed, 2);
    assert!(!found.reached_whiteout);
    assert_eq!(sorted(&found.whiteout_tiles), vec![entry(6, 6, "#AAA")]);
    assert_eq!(sorted(&found.end_tiles), vec![entry(6, 6, "t3")]);
}

#[test]
fn three_lines_with_the_whiteout_at_line_three() {
    let found = find_remaining_tiles("userA", &lines(&THREE), &YEAR, 3);
    assert_eq!(found.tiles_placed, 2);
    assert!(found.reached_whiteout);
    assert!(found.whiteout_tiles.is_empty());
    assert_eq!(sorted(&found.end_tiles), vec![entry(6, 6, "t3")]);
}

#[test]
fn whiteout_at_line_one_leaves_nothing_for_the_whiteout() {
    let found = find_remaining_tiles("userA", &lines(&THREE), &YEAR, 1);
    assert_eq!(found.tiles_placed, 2);
    assert!(found.whiteout_tiles.is_empty());
    assert_eq!(sorted(&found.end_tiles), vec![entry(6, 6, "t3")]);
}

#[test]
fn whiteout_at_line_zero_is_never_reached() {
    let found = find_remaining_tiles("userA", &lines(&THREE), &YEAR, 0);
    assert!(!found.reached_whiteout);
    assert_eq!(sorted(&found.whiteout_tiles), vec![entry(6, 6, "#AAA")]);
}

#[test]
fn the_last_writer_wins() {
    let log = lines(&[
        "t1,A,red,\"1,1\"",
        "t2,A,green,\"2,2\"",
        "t3,B,blue,\"1,1\"",
        "t4,A,white,\"1,1\"",
        "t5,A,black,\"2,2\"",
        "t6,B,blue,\"3,3\"",
    ]);
    let found = find_remaining_tiles("A", &log, &YEAR, 100);
    assert_eq!(found.tiles_placed, 4);
    assert_eq!(sorted(&found.whiteout_tiles), vec![entry(1, 1, "white"), entry(2, 2, "black")]);
    assert_eq!(sorted(&found.end_tiles), vec![entry(1, 1, "t4"), entry(2, 2, "t5")]);
    let found = find_remaining_tiles("B", &log, &YEAR, 100);
    assert_eq!(found.tiles_placed, 2);
    assert_eq!(sorted(&found.whiteout_tiles), vec![entry(3, 3, "blue")]);
    assert_eq!(sorted(&found.end_tiles), vec![entry(3, 3, "t6")]);
}

#[test]
fn a_tile_written_again_carries_the_later_colour() {
    let log = lines(&["t1,A,red,\"1,1\"", "t2,A,blue,\"1,1\""]);
    let found = find_remaining_tiles("A", &log, &YEAR, 100);
    assert_eq!(sorted(&found.whiteout_tiles), vec![entry(1, 1, "blue")]);
    assert_eq!(sorted(&found.end_tiles), vec![entry(1, 1, "t2")]);
}

#[test]
fn an_unknown_author_has_nothing() {
    let found = find_remaining_tiles("nobody", &lines(&THREE), &YEAR, 100);
    assert_eq!(found.tiles_placed, 0);
    assert!(found.whiteout_tiles.is_empty());
    assert!(found.end_tiles.is_empty());
}

#[test]
fn an_empty_log_gives_nothing() {
    let found = find_remaining_tiles("userA", &Vec::new(), &YEAR, 1);
    assert_eq!(found.tiles_placed, 0);
    assert!(!found.reached_whiteout);
    assert!(found.whiteout_tiles.is_empty());
    assert!(found.end_tiles.is_empty());
}

#[test]
fn rectangle_writes_all_tiles_but_its_right_and_bottom_edge() {
    let log = lines(&["t1,A,red,\"10,20,13,22\""]);
    let found = find_remaining_tiles("A", &log, &YEAR, 100);
    assert_eq!(found.tiles_placed, 1);
    let expected = vec![
        entry(10, 20, "red"),
        entry(10, 21, "red"),
        entry(11, 20, "red"),
        entry(11, 21, "red"),
        entry(12, 20, "red"),
        entry(12, 21, "red"),
    ];
    assert_eq!(sorted(&found.whiteout_tiles), expected);
    assert_eq!(found.end_tiles.entries().len(), 6);
    assert_eq!(found.end_tiles.get(&at(12, 21)), Some(&"t1".to_string()));
    assert_eq!(found.end_tiles.get(&at(13, 21)), None);
    assert_eq!(found.end_tiles.get(&at(12, 22)), None);
}

#[test]
fn rectangle_of_someone_else_erases_its_tiles() {
    let log = lines(&[
        "t1,A,red,\"0,0,4,4\"",
        "t2,B,blue,\"1,1,3,3\"",
    ]);
    let found = find_remaining_tiles("A", &log, &YEAR, 100);
    let left: Vec<(i16, i16)> =
        sorted(&found.end_tiles).into_iter().map(|(x, y, _)| (x, y)).collect();
    let mut expected = Vec::new();
    for x in 0..4 {
        for y in 0..4 {
            if !(1 <= x && x < 3 && 1 <= y && y < 3) {
                expected.push((x, y));
            }
        }
    }
    assert_eq!(left, expected);
    let early: Vec<(i16, i16)> =
        sorted(&found.whiteout_tiles).into_iter().map(|(x, y, _)| (x, y)).collect();
    assert_eq!(early, expected);
}

#[test]
fn rectangle_of_someone_else_after_the_whiteout_erases_at_the_end_only() {
    let log = lines(&[
        "t1,A,red,\"0,0,2,2\"",
        "t2,B,blue,\"0,0,2,2\"",
    ]);
    let found = find_remaining_tiles("A", &log, &YEAR, 2);
    assert_eq!(found.whiteout_tiles.entries().len(), 4);
    assert!(found.end_tiles.is_empty());
}

#[test]
fn rectangle_with_edges_out_of_order_writes_nothing() {
    let log = lines(&["t1,A,red,\"5,5,1,1\"", "t2,A,red,\"5,5,5,9\""]);
    let found = find_remaining_tiles("A", &log, &YEAR, 100);
    assert_eq!(found.tiles_placed, 2);
    assert!(found.end_tiles.is_empty());
}

#[test]
fn circle_writes_its_rasterized_tiles() {
    let log = lines(&["2023-07-20 16:00:00.000 UTC,A,\"{X: 0, Y: 0, R: 2}\",#FFFFFF"]);
    let found = find_remaining_tiles("A", &log, &PlaceDataSet::Place2023, 100);
    assert_eq!(found.tiles_placed, 1);
    let tiles: Vec<(i16, i16)> =
        sorted(&found.whiteout_tiles).into_iter().map(|(x, y, _)| (x, y)).collect();
    let mut expected: Vec<(i16, i16)> =
        TileCircle { x: 0, y: 0, r: 2 }.points().into_iter().map(|p| (p.x, p.y)).collect();
    expected.sort();
    assert_eq!(tiles, expected);
    assert_eq!(tiles.len(), 16);
    assert_eq!(found.whiteout_tiles.get(&at(-2, 1)), Some(&"#FFFFFF".to_string()));
    assert_eq!(
        found.end_tiles.get(&at(0, -2)),
        Some(&"2023-07-20 16:00:00.000 UTC".to_string())
    );
}

#[test]
fn circle_of_someone_else_erases_its_tiles() {
    let log = lines(&[
        "t1,A,\"-3,-3,3,3\",#FFFFFF",
        "t2,B,\"{X: 0, Y: 0, R: 2}\",#000000",
    ]);
    let found = find_remaining_tiles("A", &log, &PlaceDataSet::Place2023, 100);
    let circle = TileCircle { x: 0, y: 0, r: 2 }.points();
    for x in -3..3i16 {
        for y in -3..3i16 {
            let expected = !circle.contains(&at(x, y));
            assert_eq!(found.end_tiles.get(&at(x, y)).is_some(), expected, "({}, {})", x, y);
            assert_eq!(found.whiteout_tiles.get(&at(x, y)).is_some(), expected);
        }
    }
}

#[test]
fn placements_are_counted_by_records() {
    let log = lines(&["t1,A,red,\"0,0,10,10\"", "t2,A,red,\"5,5\"", "t3,A,red,\"1,1,1,1\""]);
    let found = find_remaining_tiles("A", &log, &YEAR, 2);
    assert_eq!(found.tiles_placed, 3);
}

#[test]
fn lines_that_are_no_records_keep_their_numbers() {
    let log = lines(&["garbage", "t2,A,red,\"1,1\"", "", "t4,A,blue,\"2,2\""]);
    let found = find_remaining_tiles("A", &log, &YEAR, 4);
    assert_eq!(found.tiles_placed, 2);
    assert_eq!(sorted(&found.whiteout_tiles), vec![entry(1, 1, "red")]);
    let found = find_remaining_tiles("A", &log, &YEAR, 3);
    assert!(found.reached_whiteout);
    assert_eq!(sorted(&found.whiteout_tiles), vec![entry(1, 1, "red")]);
    assert_eq!(sorted(&found.end_tiles), vec![entry(1, 1, "t2"), entry(2, 2, "t4")]);
}

#[test]
fn process_line_goes_step_by_step() {
    let user = "A".to_string();
    let mut state = Reconstruction::new();
    assert_eq!(state.process_line(&user, 1, 3, "t1,A,red,\"1,1\"", &YEAR), Ok(()));
    assert_eq!(state.tiles_placed, 1);
    assert!(!state.reached_whiteout);
    assert_eq!(state.process_line(&user, 2, 3, "broken", &YEAR), Err(ParseError::Timestamp));
    assert_eq!(state.tiles_placed, 1);
    assert_eq!(state.process_line(&user, 3, 3, "t3,A,c,\"x\"", &YEAR), Err(ParseError::Placement));
    assert!(state.reached_whiteout);
    assert_eq!(state.process_line(&user, 4, 3, "t4,A,blue,\"2,2\"", &YEAR), Ok(()));
    assert_eq!(sorted(&state.whiteout_tiles), vec![entry(1, 1, "red")]);
    assert_eq!(sorted(&state.end_tiles), vec![entry(1, 1, "t1"), entry(2, 2, "t4")]);
}

#[test]
fn mark_line_flips_at_the_whiteout_only() {
    let mut state = Reconstruction::new();
    state.mark_line(1, 2);
    assert!(!state.reached_whiteout);
    state.mark_line(2, 2);
    assert!(state.reached_whiteout);
    state.mark_line(3, 2);
    assert!(state.reached_whiteout);
}

#[test]
fn apply_takes_a_record() {
    let user = "A".to_string();
    let mut state = Reconstruction::new();
    let row = CanvasLine {
        timestamp: "t".to_string(),
        user_id: "A".to_string(),
        pixel_color: "c".to_string(),
        coordinate: LineCoordinate::Tile(at(-1, -1)),
    };
    state.apply(&user, &row);
    state.apply(&user, &row);
    assert_eq!(state.tiles_placed, 2);
    assert_eq!(sorted(&state.whiteout_tiles), vec![entry(-1, -1, "c")]);
    let other = "B".to_string();
    let mut state_b = Reconstruction::new();
    state_b.apply(&other, &row);
    assert_eq!(state_b.tiles_placed, 0);
    assert!(state_b.end_tiles.is_empty());
}

#[test]
fn shapes_are_written_and_erased() {
    let mut map = TileMap::new();
    let region = LineCoordinate::Region(TileRegion { top: 0, left: 0, bottom: 2, right: 3 });
    write_shape(&mut map, &region, &"x".to_string());
    assert_eq!(map.entries().len(), 6);
    erase_shape(&mut map, &LineCoordinate::Tile(at(1, 1)));
    assert_eq!(map.entries().len(), 5);
    assert_eq!(map.get(&at(1, 1)), None);
    erase_shape(&mut map, &LineCoordinate::Circle(TileCircle { x: 1, y: 0, r: 1 }));
    assert_eq!(map.get(&at(0, 0)), None);
    assert_eq!(map.get(&at(1, 0)), None);
    assert_eq!(map.get(&at(2, 0)), Some(&"x".to_string()));
    erase_shape(&mut map, &region);
    assert!(map.is_empty());
}

#[test]
fn the_whiteout_lines_of_the_two_canvases() {
    assert_eq!(PlaceDataSet::Place2023.whiteout_line(), 126816301);
    assert_eq!(PlaceDataSet::Place2022.whiteout_line(), 158117508);
    assert_eq!(WHITEOUT_LINE_2023, 126816301);
    assert_eq!(WHITEOUT_LINE_2022, 158117508);
}
