//! The records of the log and their two layouts.
//!
//! A record has four fields, separated by commas: the time of the placement,
//! the author, the colour, and the placement itself in double quotes.  The
//! layout of 2022 puts the colour before the placement, the layout of 2023
//! puts it last.
//!
//! A placement is written in one of three ways: `x,y` for one tile,
//! `left,top,right,bottom` for a rectangle, `{X: x, Y: y, R: r}` for a circle.

use crate::geometry::{LineCoordinate, TileCircle, TileLocation, TileRegion};
use crate::text::{
    chars_of, find, read_int16, read_int16_then, spec_find, spec_int16, spec_int16_then,
    spec_starts, starts,
};
use vstd::prelude::*;
use vstd::string::StrSliceExecFns;

verus! {

/// The field of a record that could not be read: the first one, from the
/// left.
#[derive(Clone, Copy, Debug, PartialEq, Eq, Structural)]
pub enum ParseError {
    /// No comma ends the time.
    Timestamp,
    /// No comma ends the author.
    Author,
    /// The colour is missing, has no end or, in the layout of 2023, is not
    /// seven characters at the end of the line.
    Colour,
    /// The placement is not in double quotes or is none of the three shapes.
    Placement,
}

/// The layout of the log: that of the canvas of 2023 or that of 2022.
#[derive(Clone, Copy, Debug, PartialEq, Eq, Structural)]
pub enum PlaceDataSet {
    Place2023,
    Place2022,
}

/// One record of the log.
#[derive(Clone, Debug)]
pub struct CanvasLine {
    pub timestamp: String,
    pub user_id: String,
    pub pixel_color: String,
    pub coordinate: LineCoordinate,
}

/// What a record says, with its texts as sequences of characters.
pub struct CanvasRecord {
    pub timestamp: Seq<char>,
    pub user_id: Seq<char>,
    pub pixel_color: Seq<char>,
    pub coordinate: LineCoordinate,
}

impl View for CanvasLine {
    type V = CanvasRecord;

    open spec fn view(&self) -> CanvasRecord {
        CanvasRecord {
            timestamp: self.timestamp@,
            user_id: self.user_id@,
            pixel_color: self.pixel_color@,
            coordinate: self.coordinate,
        }
    }
}

/// The words that frame the numbers of a circle.
pub open spec fn circle_x() -> Seq<char> {
    seq!['{', 'X', ':', ' ']
}

pub open spec fn circle_y() -> Seq<char> {
    seq![' ', 'Y', ':', ' ']
}

pub open spec fn circle_r() -> Seq<char> {
    seq![' ', 'R', ':', ' ']
}

/// One tile at position `at`: `x,y`.
pub open spec fn spec_tile(s: Seq<char>, at: int) -> Option<(LineCoordinate, int)> {
    match spec_int16_then(s, at, ',') {
        Some((x, p)) => match spec_int16(s, p) {
            Some((y, end)) => Some((LineCoordinate::Tile(TileLocation { x, y }), end)),
            None => None,
        },
        None => None,
    }
}

/// A rectangle at position `at`: `left,top,right,bottom`.
pub open spec fn spec_region(s: Seq<char>, at: int) -> Option<(LineCoordinate, int)> {
    match spec_int16_then(s, at, ',') {
        Some((left, second)) => match spec_int16_then(s, second, ',') {
            Some((top, third)) => match spec_int16_then(s, third, ',') {
                Some((right, fourth)) => match spec_int16(s, fourth) {
                    Some((bottom, end)) => Some(
                        (LineCoordinate::Region(TileRegion { top, left, bottom, right }), end),
                    ),
                    None => None,
                },
                None => None,
            },
            None => None,
        },
        None => None,
    }
}

/// A circle at position `at`: `{X: x, Y: y, R: r}`.
pub open spec fn spec_circle(s: Seq<char>, at: int) -> Option<(LineCoordinate, int)> {
    if !spec_starts(s, at, circle_x()) {
        None
    } else {
        match spec_int16_then(s, at + 4, ',') {
            Some((x, second)) => if !spec_starts(s, second, circle_y()) {
                None
            } else {
                match spec_int16_then(s, second + 4, ',') {
                    Some((y, third)) => if !spec_starts(s, third, circle_r()) {
                        None
                    } else {
                        match spec_int16_then(s, third + 4, '}') {
                            Some((r, end)) => Some(
                                (LineCoordinate::Circle(TileCircle { x, y, r }), end),
                            ),
                            None => None,
                        }
                    },
                    None => None,
                }
            },
            None => None,
        }
    }
}

/// A placement at position `at`.  The rectangle is tried first, then the
/// single tile, then the circle; the first that can be read decides, also
/// where what follows it makes the record unreadable.
pub open spec fn spec_coordinate(s: Seq<char>, at: int) -> Option<(LineCoordinate, int)> {
    match spec_region(s, at) {
        Some(found) => Some(found),
        None => match spec_tile(s, at) {
            Some(found) => Some(found),
            None => spec_circle(s, at),
        },
    }
}

/// A placement in double quotes at position `at`; the position is the one
/// behind the closing quote.
pub open spec fn spec_quoted(s: Seq<char>, at: int) -> Option<(LineCoordinate, int)> {
    if 0 <= at < s.len() && s[at] == '"' {
        match spec_coordinate(s, at + 1) {
            Some((shape, end)) => if end < s.len() && s[end] == '"' {
                Some((shape, end + 1))
            } else {
                None
            },
            None => None,
        }
    } else {
        None
    }
}

/// A record in the layout of 2022: time, author, colour, placement.  Each of
/// the first three fields runs up to the next comma and may be empty.  What
/// follows the placement is not looked at.
pub open spec fn spec_parse2022(s: Seq<char>) -> Result<CanvasRecord, ParseError> {
    match spec_find(s, 0, ',') {
        None => Err(ParseError::Timestamp),
        Some(a) => match spec_find(s, a + 1, ',') {
            None => Err(ParseError::Author),
            Some(b) => match spec_find(s, b + 1, ',') {
                None => Err(ParseError::Colour),
                Some(c) => match spec_quoted(s, c + 1) {
                    None => Err(ParseError::Placement),
                    Some((shape, _)) => Ok(
                        CanvasRecord {
                            timestamp: s.subrange(0, a),
                            user_id: s.subrange(a + 1, b),
                            pixel_color: s.subrange(b + 1, c),
                            coordinate: shape,
                        },
                    ),
                },
            },
        },
    }
}

/// A record in the layout of 2023: time, author, placement, colour.  The
/// colour is the seven characters behind the comma that follows the
/// placement, and the line ends with them.
pub open spec fn spec_parse2023(s: Seq<char>) -> Result<CanvasRecord, ParseError> {
    match spec_find(s, 0, ',') {
        None => Err(ParseError::Timestamp),
        Some(a) => match spec_find(s, a + 1, ',') {
            None => Err(ParseError::Author),
            Some(b) => match spec_quoted(s, b + 1) {
                None => Err(ParseError::Placement),
                Some((shape, end)) => if end < s.len() && s[end] == ',' && s.len() == end + 8 {
                    Ok(
                        CanvasRecord {
                            timestamp: s.subrange(0, a),
                            user_id: s.subrange(a + 1, b),
                            pixel_color: s.subrange(end + 1, end + 8),
                            coordinate: shape,
                        },
                    )
                } else {
                    Err(ParseError::Colour)
                },
            },
        },
    }
}

/// A record in the layout of `year`.
pub open spec fn spec_parse(s: Seq<char>, year: PlaceDataSet) -> Result<CanvasRecord, ParseError> {
    match year {
        PlaceDataSet::Place2023 => spec_parse2023(s),
        PlaceDataSet::Place2022 => spec_parse2022(s),
    }
}

/// What a reader of placements found, held against what it had to find.
pub open spec fn found_is(
    found: Option<(LineCoordinate, usize)>,
    expected: Option<(LineCoordinate, int)>,
) -> bool {
    match found {
        Some((shape, end)) => expected == Some((shape, end as int)),
        None => expected is None,
    }
}

/// The record that was read, held against what had to be read.
pub open spec fn parsed_is(
    parsed: Result<CanvasLine, ParseError>,
    expected: Result<CanvasRecord, ParseError>,
) -> bool {
    match parsed {
        Ok(line) => expected == Ok::<CanvasRecord, ParseError>(line@),
        Err(e) => expected == Err::<CanvasRecord, ParseError>(e),
    }
}

impl TileLocation {
    /// Reads one tile, `x,y`, at position `at`.
    pub fn parse(input: &[char], at: usize) -> (found: Option<(LineCoordinate, usize)>)
        ensures
            found_is(found, spec_tile(input@, at as int)),
            found matches Some((_, end)) ==> at < end <= input@.len(),
    {
        let (x, p) = match read_int16_then(input, at, ',') {
            Some(read) => read,
            None => return None,
        };
        let (y, end) = match read_int16(input, p) {
            Some(read) => read,
            None => return None,
        };
        Some((LineCoordinate::Tile(TileLocation { x, y }), end))
    }
}

impl TileRegion {
    /// Reads a rectangle, `left,top,right,bottom`, at position `at`.
    pub fn parse_line(input: &[char], at: usize) -> (found: Option<(LineCoordinate, usize)>)
        ensures
            found_is(found, spec_region(input@, at as int)),
            found matches Some((_, end)) ==> at < end <= input@.len(),
    {
        let (start_x, second) = match read_int16_then(input, at, ',') {
            Some(read) => read,
            None => return None,
        };
        let (start_y, third) = match read_int16_then(input, second, ',') {
            Some(read) => read,
            None => return None,
        };
        let (end_x, fourth) = match read_int16_then(input, third, ',') {
            Some(read) => read,
            None => return None,
        };
        let (end_y, end) = match read_int16(input, fourth) {
            Some(read) => read,
            None => return None,
        };
        Some(
            (
                LineCoordinate::Region(
                    TileRegion { left: start_x, top: start_y, right: end_x, bottom: end_y },
                ),
                end,
            ),
        )
    }
}

impl TileCircle {
    /// Reads a circle, `{X: x, Y: y, R: r}`, at position `at`.
    pub fn parse_line(input: &[char], at: usize) -> (found: Option<(LineCoordinate, usize)>)
        ensures
            found_is(found, spec_circle(input@, at as int)),
            found matches Some((_, end)) ==> at < end <= input@.len(),
    {
        let open_x: [char; 4] = ['{', 'X', ':', ' '];
        let next_y: [char; 4] = [' ', 'Y', ':', ' '];
        let next_r: [char; 4] = [' ', 'R', ':', ' '];
        assert(open_x@ =~= circle_x());
        assert(next_y@ =~= circle_y());
        assert(next_r@ =~= circle_r());
        if !starts(input, at, open_x.as_slice()) {
            return None;
        }
        let (x, second) = match read_int16_then(input, at + 4, ',') {
            Some(read) => read,
            None => return None,
        };
        if !starts(input, second, next_y.as_slice()) {
            return None;
        }
        let (y, third) = match read_int16_then(input, second + 4, ',') {
            Some(read) => read,
            None => return None,
        };
        if !starts(input, third, next_r.as_slice()) {
            return None;
        }
        let (r, end) = match read_int16_then(input, third + 4, '}') {
            Some(read) => read,
            None => return None,
        };
        Some((LineCoordinate::Circle(TileCircle { x, y, r }), end))
    }
}

impl LineCoordinate {
    /// Reads a placement at position `at`: a rectangle, else a single tile,
    /// else a circle.
    pub fn parse(input: &[char], at: usize) -> (found: Option<(LineCoordinate, usize)>)
        ensures
            found_is(found, spec_coordinate(input@, at as int)),
            found matches Some((_, end)) ==> at < end <= input@.len(),
    {
        match TileRegion::parse_line(input, at) {
            Some(found) => Some(found),
            None => match TileLocation::parse(input, at) {
                Some(found) => Some(found),
                None => TileCircle::parse_line(input, at),
            },
        }
    }

    /// Reads a placement in double quotes at position `at`.
    pub fn parse_quoted(input: &[char], at: usize) -> (found: Option<(LineCoordinate, usize)>)
        ensures
            found_is(found, spec_quoted(input@, at as int)),
            found matches Some((_, end)) ==> at < end <= input@.len(),
    {
        if !(at < input.len() && input[at] == '"') {
            return None;
        }
        match LineCoordinate::parse(input, at + 1) {
            Some((shape, end)) => {
                if end < input.len() && input[end] == '"' {
                    Some((shape, end + 1))
                } else {
                    None
                }
            },
            None => None,
        }
    }
}

impl CanvasLine {
    /// Reads a record in the layout of 2022.
    pub fn parse2022(input: &str) -> (parsed: Result<CanvasLine, ParseError>)
        ensures
            parsed_is(parsed, spec_parse2022(input@)),
    {
        let chars = chars_of(input);
        let s = chars.as_slice();
        let a = match find(s, 0, ',') {
            Some(i) => i,
            None => return Err(ParseError::Timestamp),
        };
        let b = match find(s, a + 1, ',') {
            Some(i) => i,
            None => return Err(ParseError::Author),
        };
        let c = match find(s, b + 1, ',') {
            Some(i) => i,
            None => return Err(ParseError::Colour),
        };
        let coordinate = match LineCoordinate::parse_quoted(s, c + 1) {
            Some((shape, _)) => shape,
            None => return Err(ParseError::Placement),
        };
        Ok(
            CanvasLine {
                timestamp: input.substring_char(0, a).to_owned(),
                user_id: input.substring_char(a + 1, b).to_owned(),
                pixel_color: input.substring_char(b + 1, c).to_owned(),
                coordinate,
            },
        )
    }

    /// Reads a record in the layout of 2023.
    pub fn parse2023(input: &str) -> (parsed: Result<CanvasLine, ParseError>)
        ensures
            parsed_is(parsed, spec_parse2023(input@)),
    {
        let chars = chars_of(input);
        let s = chars.as_slice();
        let a = match find(s, 0, ',') {
            Some(i) => i,
            None => return Err(ParseError::Timestamp),
        };
        let b = match find(s, a + 1, ',') {
            Some(i) => i,
            None => return Err(ParseError::Author),
        };
        let (coordinate, end) = match LineCoordinate::parse_quoted(s, b + 1) {
            Some(found) => found,
            None => return Err(ParseError::Placement),
        };
        if !(end < s.len() && s[end] == ',' && s.len() - end == 8) {
            return Err(ParseError::Colour);
        }
        Ok(
            CanvasLine {
                timestamp: input.substring_char(0, a).to_owned(),
                user_id: input.substring_char(a + 1, b).to_owned(),
                pixel_color: input.substring_char(end + 1, end + 8).to_owned(),
                coordinate,
            },
        )
    }

    /// Reads a record in the layout of `year`.
    pub fn parse(input: &str, year: &PlaceDataSet) -> (parsed: Result<CanvasLine, ParseError>)
        ensures
            parsed_is(parsed, spec_parse(input@, *year)),
    {
        match year {
            PlaceDataSet::Place2023 => CanvasLine::parse2023(input),
            PlaceDataSet::Place2022 => CanvasLine::parse2022(input),
        }
    }
}

} // verus!
