//! Replaying the log for one author: which tiles were still the author's at
//! the line of the whiteout, and which at the end.
//!
//! The last placement on a tile decides.  A placement of the author makes
//! the tile the author's; a placement of anyone else takes it away.

use crate::geometry::{LineCoordinate, TileLocation, TileRegion};
use crate::record::{spec_parse, CanvasLine, CanvasRecord, ParseError, PlaceDataSet};
use crate::sequences::lemma_next_contains;
use crate::tiles::TileMap;
use vstd::prelude::*;

verus! {

/// The line of the log of 2023 at which the whiteout began.
pub const WHITEOUT_LINE_2023: usize = 126816301;

/// The line of the log of 2022 at which the whiteout began.
pub const WHITEOUT_LINE_2022: usize = 158117508;

/// What the replay has found so far.
pub struct Reconstruction {
    /// Whether the line of the whiteout has been reached.
    pub reached_whiteout: bool,
    /// The number of placements of the author.
    pub tiles_placed: u64,
    /// The tiles that were the author's when the whiteout began, each with
    /// the colour that the author gave it last.
    pub whiteout_tiles: TileMap,
    /// The tiles that are the author's now, each with the time at which the
    /// author wrote it last.
    pub end_tiles: TileMap,
}

/// What the replay has found so far, in mathematical terms.
pub struct Survey {
    pub reached_whiteout: bool,
    pub tiles_placed: nat,
    pub whiteout_tiles: Map<TileLocation, Seq<char>>,
    pub end_tiles: Map<TileLocation, Seq<char>>,
}

impl View for Reconstruction {
    type V = Survey;

    open spec fn view(&self) -> Survey {
        Survey {
            reached_whiteout: self.reached_whiteout,
            tiles_placed: self.tiles_placed as nat,
            whiteout_tiles: self.whiteout_tiles@,
            end_tiles: self.end_tiles@,
        }
    }
}

/// The map after `text` has been written to every tile of `shape`.
pub open spec fn written(
    map: Map<TileLocation, Seq<char>>,
    shape: LineCoordinate,
    text: Seq<char>,
) -> Map<TileLocation, Seq<char>> {
    Map::new(
        |at: TileLocation| map.contains_key(at) || shape.covers(at),
        |at: TileLocation|
            if shape.covers(at) {
                text
            } else {
                map[at]
            },
    )
}

/// The map after every tile of `shape` has been taken out of it.
pub open spec fn erased(map: Map<TileLocation, Seq<char>>, shape: LineCoordinate) -> Map<
    TileLocation,
    Seq<char>,
> {
    Map::new(|at: TileLocation| map.contains_key(at) && !shape.covers(at), |at: TileLocation| map[at])
}

/// The replay before the first line.
pub open spec fn start() -> Survey {
    Survey {
        reached_whiteout: false,
        tiles_placed: 0,
        whiteout_tiles: Map::empty(),
        end_tiles: Map::empty(),
    }
}

/// The replay after it has taken note of the number of the next line: from
/// the line of the whiteout on, the whiteout is reached.
pub open spec fn spec_mark(state: Survey, line_number: int, whiteout_line: int) -> Survey {
    if line_number == whiteout_line {
        Survey { reached_whiteout: true, ..state }
    } else {
        state
    }
}

/// The replay after a record.  A record of `user` counts as a placement and
/// writes its tiles, with the colour for the whiteout and with the time for
/// the end; a record of anyone else erases its tiles.  Once the whiteout is
/// reached, the tiles of the whiteout stay as they are.
pub open spec fn spec_apply(state: Survey, user: Seq<char>, record: CanvasRecord) -> Survey {
    if record.user_id == user {
        Survey {
            reached_whiteout: state.reached_whiteout,
            tiles_placed: state.tiles_placed + 1,
            whiteout_tiles: if state.reached_whiteout {
                state.whiteout_tiles
            } else {
                written(state.whiteout_tiles, record.coordinate, record.pixel_color)
            },
            end_tiles: written(state.end_tiles, record.coordinate, record.timestamp),
        }
    } else {
        Survey {
            reached_whiteout: state.reached_whiteout,
            tiles_placed: state.tiles_placed,
            whiteout_tiles: if state.reached_whiteout {
                state.whiteout_tiles
            } else {
                erased(state.whiteout_tiles, record.coordinate)
            },
            end_tiles: erased(state.end_tiles, record.coordinate),
        }
    }
}

/// The replay after the line with the number `line_number`.  The number is
/// taken note of first, so the record at the line of the whiteout no longer
/// touches the tiles of the whiteout.  A line that is no record changes
/// nothing else.
pub open spec fn spec_line(
    state: Survey,
    user: Seq<char>,
    line_number: int,
    whiteout_line: int,
    line: Seq<char>,
    year: PlaceDataSet,
) -> Survey {
    let marked = spec_mark(state, line_number, whiteout_line);
    match spec_parse(line, year) {
        Err(_) => marked,
        Ok(record) => spec_apply(marked, user, record),
    }
}

/// The replay after the first `n` lines.  The lines are numbered from one.
pub open spec fn replay_upto(
    user: Seq<char>,
    lines: Seq<String>,
    year: PlaceDataSet,
    whiteout_line: int,
    n: nat,
) -> Survey
    decreases n,
{
    if n == 0 {
        start()
    } else {
        spec_line(
            replay_upto(user, lines, year, whiteout_line, (n - 1) as nat),
            user,
            n as int,
            whiteout_line,
            lines[n - 1]@,
            year,
        )
    }
}

/// The replay after all lines.
pub open spec fn spec_replay(
    user: Seq<char>,
    lines: Seq<String>,
    year: PlaceDataSet,
    whiteout_line: int,
) -> Survey {
    replay_upto(user, lines, year, whiteout_line, lines.len())
}

impl PlaceDataSet {
    /// The line at which the whiteout of this canvas began.
    pub fn whiteout_line(&self) -> (line: usize)
        ensures
            line == match *self {
                PlaceDataSet::Place2023 => WHITEOUT_LINE_2023,
                PlaceDataSet::Place2022 => WHITEOUT_LINE_2022,
            },
    {
        match self {
            PlaceDataSet::Place2023 => WHITEOUT_LINE_2023,
            PlaceDataSet::Place2022 => WHITEOUT_LINE_2022,
        }
    }
}

/// Writes `text` to each of `tiles`.
fn write_tiles(map: &mut TileMap, tiles: &Vec<TileLocation>, text: &String)
    ensures
        final(map)@ == Map::new(
            |at: TileLocation| old(map)@.contains_key(at) || tiles@.contains(at),
            |at: TileLocation|
                if tiles@.contains(at) {
                    text@
                } else {
                    old(map)@[at]
                },
        ),
{
    let mut i: usize = 0;
    while i < tiles.len()
        invariant
            i <= tiles@.len(),
            map@ == Map::new(
                |at: TileLocation| old(map)@.contains_key(at) || tiles@.take(i as int).contains(at),
                |at: TileLocation|
                    if tiles@.take(i as int).contains(at) {
                        text@
                    } else {
                        old(map)@[at]
                    },
            ),
        decreases tiles@.len() - i,
    {
        let ghost done = tiles@.take(i as int);
        let ghost more = tiles@.take(i + 1);
        map.insert(tiles[i], text.clone());
        proof {
            assert forall|at: TileLocation| more.contains(at) <==> done.contains(at) || at
                == tiles@[i as int] by {
                lemma_next_contains(tiles@, i as int, at);
            }
            assert(map@ =~= Map::new(
                |at: TileLocation| old(map)@.contains_key(at) || more.contains(at),
                |at: TileLocation|
                    if more.contains(at) {
                        text@
                    } else {
                        old(map)@[at]
                    },
            ));
        }
        i = i + 1;
    }
    assert(tiles@.take(i as int) =~= tiles@);
}

/// Takes each of `tiles` out of the map.
fn erase_tiles(map: &mut TileMap, tiles: &Vec<TileLocation>)
    ensures
        final(map)@ == Map::new(
            |at: TileLocation| old(map)@.contains_key(at) && !tiles@.contains(at),
            |at: TileLocation| old(map)@[at],
        ),
{
    let mut i: usize = 0;
    while i < tiles.len()
        invariant
            i <= tiles@.len(),
            map@ == Map::new(
                |at: TileLocation|
                    old(map)@.contains_key(at) && !tiles@.take(i as int).contains(at),
                |at: TileLocation| old(map)@[at],
            ),
        decreases tiles@.len() - i,
    {
        let ghost done = tiles@.take(i as int);
        let ghost more = tiles@.take(i + 1);
        map.remove(&tiles[i]);
        proof {
            assert forall|at: TileLocation| more.contains(at) <==> done.contains(at) || at
                == tiles@[i as int] by {
                lemma_next_contains(tiles@, i as int, at);
            }
            assert(map@ =~= Map::new(
                |at: TileLocation| old(map)@.contains_key(at) && !more.contains(at),
                |at: TileLocation| old(map)@[at],
            ));
        }
        i = i + 1;
    }
    assert(tiles@.take(i as int) =~= tiles@);
}

/// The tile in column `x` and row `y` lies in the part of the rectangle
/// that has been gone through when the walk, column by column and in each
/// column row by row, stands at column `i` and row `j`.
pub open spec fn walked(r: TileRegion, i: int, j: int, at: TileLocation) -> bool {
    r.top <= at.y < r.bottom && r.left <= at.x && (at.x < i || (at.x == i && at.y < j))
}

/// Writes `text` to each tile of the rectangle, its right and bottom edges
/// left out.
fn write_region(map: &mut TileMap, r: &TileRegion, text: &String)
    ensures
        final(map)@ == written(old(map)@, LineCoordinate::Region(*r), text@),
{
    let mut i: i32 = r.left as i32;
    assert(map@ =~= Map::new(
        |at: TileLocation| old(map)@.contains_key(at) || walked(*r, i as int, r.top as int, at),
        |at: TileLocation|
            if walked(*r, i as int, r.top as int, at) {
                text@
            } else {
                old(map)@[at]
            },
    ));
    while i < r.right as i32
        invariant
            r.left <= i,
            r.left < r.right ==> i <= r.right,
            r.left >= r.right ==> i == r.left,
            map@ == Map::new(
                |at: TileLocation|
                    old(map)@.contains_key(at) || walked(*r, i as int, r.top as int, at),
                |at: TileLocation|
                    if walked(*r, i as int, r.top as int, at) {
                        text@
                    } else {
                        old(map)@[at]
                    },
            ),
        decreases r.right - i,
    {
        let mut j: i32 = r.top as i32;
        while j < r.bottom as i32
            invariant
                r.left <= i < r.right,
                r.top <= j,
                r.top < r.bottom ==> j <= r.bottom,
                map@ == Map::new(
                    |at: TileLocation|
                        old(map)@.contains_key(at) || walked(*r, i as int, j as int, at),
                    |at: TileLocation|
                        if walked(*r, i as int, j as int, at) {
                            text@
                        } else {
                            old(map)@[at]
                        },
                ),
            decreases r.bottom - j,
        {
            map.insert(TileLocation { x: i as i16, y: j as i16 }, text.clone());
            j = j + 1;
            assert(map@ =~= Map::new(
                |at: TileLocation|
                    old(map)@.contains_key(at) || walked(*r, i as int, j as int, at),
                |at: TileLocation|
                    if walked(*r, i as int, j as int, at) {
                        text@
                    } else {
                        old(map)@[at]
                    },
            ));
        }
        i = i + 1;
        assert(map@ =~= Map::new(
            |at: TileLocation|
                old(map)@.contains_key(at) || walked(*r, i as int, r.top as int, at),
            |at: TileLocation|
                if walked(*r, i as int, r.top as int, at) {
                    text@
                } else {
                    old(map)@[at]
                },
        ));
    }
    assert forall|at: TileLocation|
        walked(*r, i as int, r.top as int, at) <==> LineCoordinate::Region(*r).covers(at) by {}
    assert(map@ =~= written(old(map)@, LineCoordinate::Region(*r), text@));
}

/// Takes each tile of the rectangle out of the map, its right and bottom
/// edges left out.
fn erase_region(map: &mut TileMap, r: &TileRegion)
    ensures
        final(map)@ == erased(old(map)@, LineCoordinate::Region(*r)),
{
    let mut i: i32 = r.left as i32;
    assert(map@ =~= Map::new(
        |at: TileLocation| old(map)@.contains_key(at) && !walked(*r, i as int, r.top as int, at),
        |at: TileLocation| old(map)@[at],
    ));
    while i < r.right as i32
        invariant
            r.left <= i,
            r.left < r.right ==> i <= r.right,
            r.left >= r.right ==> i == r.left,
            map@ == Map::new(
                |at: TileLocation|
                    old(map)@.contains_key(at) && !walked(*r, i as int, r.top as int, at),
                |at: TileLocation| old(map)@[at],
            ),
        decreases r.right - i,
    {
        let mut j: i32 = r.top as i32;
        while j < r.bottom as i32
            invariant
                r.left <= i < r.right,
                r.top <= j,
                r.top < r.bottom ==> j <= r.bottom,
                map@ == Map::new(
                    |at: TileLocation|
                        old(map)@.contains_key(at) && !walked(*r, i as int, j as int, at),
                    |at: TileLocation| old(map)@[at],
                ),
            decreases r.bottom - j,
        {
            map.remove(&TileLocation { x: i as i16, y: j as i16 });
            j = j + 1;
            assert(map@ =~= Map::new(
                |at: TileLocation|
                    old(map)@.contains_key(at) && !walked(*r, i as int, j as int, at),
                |at: TileLocation| old(map)@[at],
            ));
        }
        i = i + 1;
        assert(map@ =~= Map::new(
            |at: TileLocation|
                old(map)@.contains_key(at) && !walked(*r, i as int, r.top as int, at),
            |at: TileLocation| old(map)@[at],
        ));
    }
    assert forall|at: TileLocation|
        walked(*r, i as int, r.top as int, at) <==> LineCoordinate::Region(*r).covers(at) by {}
    assert(map@ =~= erased(old(map)@, LineCoordinate::Region(*r)));
}

/// Writes `text` to each tile of the placement.
pub fn write_shape(map: &mut TileMap, shape: &LineCoordinate, text: &String)
    ensures
        final(map)@ == written(old(map)@, *shape, text@),
{
    match shape {
        LineCoordinate::Tile(t) => {
            map.insert(*t, text.clone());
            assert(map@ =~= written(old(map)@, *shape, text@));
        },
        LineCoordinate::Region(r) => {
            write_region(map, r, text);
        },
        LineCoordinate::Circle(c) => {
            let points = c.points();
            write_tiles(map, &points, text);
            assert(map@ =~= written(old(map)@, *shape, text@));
        },
    }
}

/// Takes each tile of the placement out of the map.
pub fn erase_shape(map: &mut TileMap, shape: &LineCoordinate)
    ensures
        final(map)@ == erased(old(map)@, *shape),
{
    match shape {
        LineCoordinate::Tile(t) => {
            map.remove(t);
            assert(map@ =~= erased(old(map)@, *shape));
        },
        LineCoordinate::Region(r) => {
            erase_region(map, r);
        },
        LineCoordinate::Circle(c) => {
            let points = c.points();
            erase_tiles(map, &points);
            assert(map@ =~= erased(old(map)@, *shape));
        },
    }
}

impl Reconstruction {
    /// The replay before the first line.
    pub fn new() -> (state: Reconstruction)
        ensures
            state@ == start(),
    {
        Reconstruction {
            reached_whiteout: false,
            tiles_placed: 0,
            whiteout_tiles: TileMap::new(),
            end_tiles: TileMap::new(),
        }
    }

    /// Takes note of the number of the next line, readable or not.
    pub fn mark_line(&mut self, line_number: usize, whiteout_line: usize)
        ensures
            final(self)@ == spec_mark(old(self)@, line_number as int, whiteout_line as int),
    {
        if line_number == whiteout_line {
            self.reached_whiteout = true;
        }
    }

    /// Replays one record for the author `user_hash`.
    pub fn apply(&mut self, user_hash: &String, row: &CanvasLine)
        requires
            old(self).tiles_placed < u64::MAX,
        ensures
            final(self)@ == spec_apply(old(self)@, user_hash@, row@),
    {
        if row.user_id == *user_hash {
            self.tiles_placed = self.tiles_placed + 1;
            if !self.reached_whiteout {
                write_shape(&mut self.whiteout_tiles, &row.coordinate, &row.pixel_color);
            }
            write_shape(&mut self.end_tiles, &row.coordinate, &row.timestamp);
        } else {
            if !self.reached_whiteout {
                erase_shape(&mut self.whiteout_tiles, &row.coordinate);
            }
            erase_shape(&mut self.end_tiles, &row.coordinate);
        }
    }

    /// Replays the line with the number `line_number` for the author
    /// `user_hash`, and says whether the line was a record.
    pub fn process_line(
        &mut self,
        user_hash: &String,
        line_number: usize,
        whiteout_line: usize,
        line: &str,
        year: &PlaceDataSet,
    ) -> (read: Result<(), ParseError>)
        requires
            old(self).tiles_placed < u64::MAX,
        ensures
            final(self)@ == spec_line(
                old(self)@,
                user_hash@,
                line_number as int,
                whiteout_line as int,
                line@,
                *year,
            ),
            match read {
                Ok(_) => spec_parse(line@, *year) is Ok,
                Err(e) => spec_parse(line@, *year) == Err::<CanvasRecord, ParseError>(e),
            },
    {
        self.mark_line(line_number, whiteout_line);
        match CanvasLine::parse(line, year) {
            Ok(row) => {
                self.apply(user_hash, &row);
                Ok(())
            },
            Err(e) => Err(e),
        }
    }
}

/// Replays the lines of the log, the header left out, for the author
/// `user_hash`: counts the placements of the author, and finds the tiles
/// that were the author's when the line `whiteout_line` was reached and
/// those that are the author's at the end.
pub fn find_remaining_tiles(
    user_hash: &str,
    lines: &Vec<String>,
    year: &PlaceDataSet,
    whiteout_line: usize,
) -> (found: Reconstruction)
    ensures
        found@ == spec_replay(user_hash@, lines@, *year, whiteout_line as int),
{
    let user = user_hash.to_owned();
    let mut state = Reconstruction::new();
    let mut i: usize = 0;
    while i < lines.len()
        invariant
            i <= lines@.len(),
            state.tiles_placed <= i,
            user@ == user_hash@,
            state@ == replay_upto(user_hash@, lines@, *year, whiteout_line as int, i as nat),
        decreases lines@.len() - i,
    {
        let _ = state.process_line(&user, i + 1, whiteout_line, lines[i].as_str(), year);
        i = i + 1;
    }
    state
}

} // verus!
