//! Search areas: where, when and in which colours an author is looked for.

use crate::geometry::{LineCoordinate, TileRegion};
use crate::record::{CanvasLine, CanvasRecord};
use crate::timestamp::{spec_parse_time, Timestamp};
use vstd::prelude::*;

verus! {

/// A rectangle of the canvas with an optional window of time and an optional
/// list of colours.  An area that is not optional has to be matched by every
/// candidate.
#[derive(Clone, Debug)]
pub struct SearchArea {
    /// The earliest time that matches, if there is a limit.
    pub start_time: Option<Timestamp>,
    /// The latest time that matches, if there is a limit.
    pub end_time: Option<Timestamp>,
    pub is_optional: bool,
    /// The colours that match; with none given, every colour matches.
    pub colours: Vec<String>,
    pub area: TileRegion,
}

impl SearchArea {
    /// `time` lies within the window, its two ends included.
    pub open spec fn in_window(&self, time: Timestamp) -> bool {
        &&& self.start_time matches Some(start) ==> !time.precedes(start)
        &&& self.end_time matches Some(end) ==> !end.precedes(time)
    }

    /// `colour` is one of the colours of the area, or the area names none.
    pub open spec fn allows(&self, colour: Seq<char>) -> bool {
        self.colours@.len() == 0 || exists|i: int|
            0 <= i < self.colours@.len() && (#[trigger] self.colours@[i])@ == colour
    }

    /// The placement falls into the rectangle of the area: a tile lies in
    /// it, a rectangle passes the corner test with it (`TileRegion::meets`),
    /// a circle the sampling test (`TileCircle::touches`).
    pub open spec fn reaches(&self, shape: LineCoordinate) -> bool {
        match shape {
            LineCoordinate::Tile(t) => self.area.holds(t.x as int, t.y as int),
            LineCoordinate::Region(r) => self.area.meets(r),
            LineCoordinate::Circle(c) => c.touches(self.area),
        }
    }

    /// A record made at `time` matches the area: in time, colour and place.
    pub open spec fn admits(&self, time: Timestamp, record: CanvasRecord) -> bool {
        self.in_window(time) && self.allows(record.pixel_color) && self.reaches(
            record.coordinate,
        )
    }

    /// Whether the placement falls into the rectangle of the area, whatever
    /// its time and colour.
    pub fn touched_by(&self, coordinate: &LineCoordinate) -> (hit: bool)
        ensures
            hit == self.reaches(*coordinate),
    {
        match coordinate {
            LineCoordinate::Tile(t) => self.area.contains(t),
            LineCoordinate::Region(r) => self.area.intersects(r),
            LineCoordinate::Circle(c) => c.intersects(&self.area),
        }
    }

    /// Whether `colour` is one of the colours of the area, or the area names
    /// none.
    pub fn allows_colour(&self, colour: &String) -> (allowed: bool)
        ensures
            allowed == self.allows(colour@),
    {
        if self.colours.len() == 0 {
            return true;
        }
        let mut i: usize = 0;
        while i < self.colours.len()
            invariant
                i <= self.colours@.len(),
                forall|k: int| 0 <= k < i ==> (#[trigger] self.colours@[k])@ != colour@,
            decreases self.colours@.len() - i,
        {
            if self.colours[i] == *colour {
                return true;
            }
            i = i + 1;
        }
        false
    }

    /// Whether a record made at `time` matches the area.  The time is looked
    /// at first, then the colour, then the place.
    pub fn matches_at(&self, time: &Timestamp, pixel: &CanvasLine) -> (matched: bool)
        ensures
            matched == self.admits(*time, pixel@),
    {
        if let Some(start_time) = self.start_time {
            if time.is_before(&start_time) {
                return false;
            }
        }
        if let Some(end_time) = self.end_time {
            if end_time.is_before(time) {
                return false;
            }
        }
        if !self.allows_colour(&pixel.pixel_color) {
            return false;
        }
        self.touched_by(&pixel.coordinate)
    }

    /// Whether the record matches the area.  Its time has to be readable.
    pub fn contains(&self, pixel: &CanvasLine) -> (matched: bool)
        requires
            spec_parse_time(pixel.timestamp@) is Some,
        ensures
            matched == self.admits(spec_parse_time(pixel.timestamp@)->0, pixel@),
    {
        match Timestamp::parse(pixel.timestamp.as_str()) {
            Some(line_time) => self.matches_at(&line_time, pixel),
            None => false,
        }
    }

    /// Whether the record matches the area, or nothing where the time of the
    /// record cannot be read.
    pub fn try_contains(&self, pixel: &CanvasLine) -> (matched: Option<bool>)
        ensures
            matched == match spec_parse_time(pixel.timestamp@) {
                Some(time) => Some(self.admits(time, pixel@)),
                None => None,
            },
    {
        match Timestamp::parse(pixel.timestamp.as_str()) {
            Some(_) => Some(self.contains(pixel)),
            None => None,
        }
    }
}

} // verus!
