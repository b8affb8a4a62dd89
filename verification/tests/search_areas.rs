use canvas_trace::geometry::{LineCoordinate, TileCircle, TileLocation, TileRegion};
use canvas_trace::record::CanvasLine;
use canvas_trace::search::SearchArea;
use canvas_trace::timestamp::Timestamp;

fn area(left: i16, top: i16, right: i16, bottom: i16) -> SearchArea {
    SearchArea {
        start_time: None,
        end_time: None,
        is_optional: false,
        colours: Vec::new(),
        area: TileRegion { top, left, bottom, right },
    }
}

fn time(text: &str) -> Timestamp {
    Timestamp::parse(text).unwrap()
}

fn record(timestamp: &str, colour: &str, coordinate: LineCoordinate) -> CanvasLine {
    CanvasLine {
        timestamp: timestamp.to_string(),
        user_id: "someone".to_string(),
        pixel_color: colour.to_string(),
        coordinate,
    }
}

fn tile(x: i16, y: i16) -> LineCoordinate {
    LineCoordinate::Tile(TileLocation { x, y })
}

const NOON: &str = "2022-04-02 12:00:00.000 UTC";

#[test]
fn area_without_limits_matches_by_place() {
    let a = area(0, 0, 10, 10);
    assert!(a.contains(&record(NOON, "#FFFFFF", tile(5, 5))));
    assert!(a.contains(&record(NOON, "#FFFFFF", tile(10, 10))));
    assert!(!a.contains(&record(NOON, "#FFFFFF", tile(11, 10))));
}

#[test]
fn window_of_time_includes_its_ends() {
    let mut a = area(0, 0, 10, 10);
    a.start_time = Some(time("2022-04-02 10:00:00 UTC"));
    a.end_time = Some(time("2022-04-02 14:00:00 UTC"));
    assert!(a.contains(&record("2022-04-02 10:00:00 UTC", "#FFFFFF", tile(5, 5))));
    assert!(a.contains(&record(NOON, "#FFFFFF", tile(5, 5))));
    assert!(a.contains(&record("2022-04-02 14:00:00 UTC", "#FFFFFF", tile(5, 5))));
    assert!(!a.contains(&record("2022-04-02 09:59:59.999 UTC", "#FFFFFF", tile(5, 5))));
    assert!(!a.contains(&record("2022-04-02 14:00:00.001 UTC", "#FFFFFF", tile(5, 5))));
}

#[test]
fn start_alone_rejects_what_came_before() {
    let mut a = area(0, 0, 10, 10);
    a.start_time = Some(time(NOON));
    assert!(!a.contains(&record("2022-04-01 12:00:00 UTC", "#FFFFFF", tile(5, 5))));
    assert!(a.contains(&record("2022-04-03 12:00:00 UTC", "#FFFFFF", tile(5, 5))));
}

#[test]
fn end_alone_rejects_what_came_after() {
    let mut a = area(0, 0, 10, 10);
    a.end_time = Some(time(NOON));
    assert!(a.contains(&record("2022-04-01 12:00:00 UTC", "#FFFFFF", tile(5, 5))));
    assert!(!a.contains(&record("2022-04-03 12:00:00 UTC", "#FFFFFF", tile(5, 5))));
}

#[test]
fn window_that_ends_before_it_starts_matches_nothing() {
    let mut a = area(0, 0, 10, 10);
    a.start_time = Some(time("2022-04-02 14:00:00 UTC"));
    a.end_time = Some(time("2022-04-02 10:00:00 UTC"));
    assert!(!a.contains(&record(NOON, "#FFFFFF", tile(5, 5))));
    assert!(!a.contains(&record("2022-04-02 09:00:00 UTC", "#FFFFFF", tile(5, 5))));
    assert!(!a.contains(&record("2022-04-02 15:00:00 UTC", "#FFFFFF", tile(5, 5))));
}

#[test]
fn colours_are_a_list_of_what_is_allowed() {
    let mut a = area(0, 0, 10, 10);
    a.colours = vec!["#FF0000".to_string(), "#00FF00".to_string()];
    assert!(a.contains(&record(NOON, "#FF0000", tile(5, 5))));
    assert!(a.contains(&record(NOON, "#00FF00", tile(5, 5))));
    assert!(!a.contains(&record(NOON, "#0000FF", tile(5, 5))));
    assert!(!a.contains(&record(NOON, "#ff0000", tile(5, 5))));
    assert!(a.allows_colour(&"#00FF00".to_string()));
    assert!(!a.allows_colour(&"".to_string()));
}

#[test]
fn no_colours_allow_every_colour() {
    let a = area(0, 0, 10, 10);
    assert!(a.allows_colour(&"#123456".to_string()));
    assert!(a.allows_colour(&"".to_string()));
}

#[test]
fn rectangles_match_by_the_corner_test() {
    let a = area(0, 0, 10, 10);
    let overlapping = LineCoordinate::Region(TileRegion { top: 5, left: 5, bottom: 15, right: 15 });
    let apart = LineCoordinate::Region(TileRegion { top: 50, left: 50, bottom: 60, right: 60 });
    let crossing = LineCoordinate::Region(TileRegion { top: -5, left: 4, bottom: 15, right: 6 });
    assert!(a.contains(&record(NOON, "#FFFFFF", overlapping)));
    assert!(!a.contains(&record(NOON, "#FFFFFF", apart)));
    assert!(!a.contains(&record(NOON, "#FFFFFF", crossing)));
    assert!(a.touched_by(&overlapping));
    assert!(!a.touched_by(&apart));
}

#[test]
fn circles_match_by_the_sampling_test() {
    let a = area(0, 0, 10, 10);
    // The circle encloses the corner (10, 10) of the rectangle.
    let near = LineCoordinate::Circle(TileCircle { x: 12, y: 12, r: 4 });
    // The leftmost point of the circle, (10, 5), lies on the right edge.
    let beside = LineCoordinate::Circle(TileCircle { x: 14, y: 5, r: 4 });
    // Only a corner of the square around the circle lies in the rectangle.
    let askew = LineCoordinate::Circle(TileCircle { x: 15, y: 15, r: 5 });
    let far = LineCoordinate::Circle(TileCircle { x: 50, y: 50, r: 4 });
    assert!(a.contains(&record(NOON, "#FFFFFF", near)));
    assert!(a.contains(&record(NOON, "#FFFFFF", beside)));
    assert!(!a.contains(&record(NOON, "#FFFFFF", askew)));
    assert!(!a.contains(&record(NOON, "#FFFFFF", far)));
    assert!(a.touched_by(&beside));
    assert!(!a.touched_by(&askew));
}

#[test]
fn time_is_looked_at_before_colour_and_place() {
    let mut a = area(0, 0, 10, 10);
    a.start_time = Some(time(NOON));
    a.colours = vec!["#FF0000".to_string()];
    let early = time("2022-04-01 00:00:00 UTC");
    let late = time("2022-04-03 00:00:00 UTC");
    assert!(!a.matches_at(&early, &record("", "#FF0000", tile(5, 5))));
    assert!(a.matches_at(&late, &record("", "#FF0000", tile(5, 5))));
    assert!(!a.matches_at(&late, &record("", "#00FF00", tile(5, 5))));
    assert!(!a.matches_at(&late, &record("", "#FF0000", tile(50, 5))));
}

#[test]
fn time_without_fraction_is_read_too() {
    let mut a = area(0, 0, 10, 10);
    a.end_time = Some(time(NOON));
    assert!(a.contains(&record("2022-04-02 11:59:59 UTC", "#FFFFFF", tile(5, 5))));
    assert!(!a.contains(&record("2022-04-02 12:00:01 UTC", "#FFFFFF", tile(5, 5))));
}

#[test]
fn try_contains_tells_an_unreadable_time() {
    let a = area(0, 0, 10, 10);
    assert_eq!(a.try_contains(&record("no time", "#FFFFFF", tile(5, 5))), None);
    assert_eq!(a.try_contains(&record("", "#FFFFFF", tile(5, 5))), None);
    assert_eq!(a.try_contains(&record(NOON, "#FFFFFF", tile(5, 5))), Some(true));
    assert_eq!(a.try_contains(&record(NOON, "#FFFFFF", tile(50, 5))), Some(false));
}
