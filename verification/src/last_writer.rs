//! The last writer wins: what the replay holds for a tile depends on the
//! last record that wrote the tile, and on nothing else.

use crate::geometry::TileLocation;
use crate::record::{spec_parse, CanvasRecord, PlaceDataSet};
use crate::replay::{replay_upto, spec_replay};
use vstd::prelude::*;

verus! {

/// The record at the line with the number `n`, where that line is one.
pub open spec fn record_at(lines: Seq<String>, year: PlaceDataSet, n: int) -> Option<CanvasRecord> {
    if 1 <= n <= lines.len() {
        match spec_parse(lines[n - 1]@, year) {
            Ok(record) => Some(record),
            Err(_) => None,
        }
    } else {
        None
    }
}

/// The line with the number `n` is a record that writes the tile `at`.
pub open spec fn writes_at(lines: Seq<String>, year: PlaceDataSet, n: int, at: TileLocation) -> bool {
    record_at(lines, year, n) matches Some(record) && record.coordinate.covers(at)
}

/// The number of the last among the first `n` lines that writes the tile
/// `at`, or zero where none of them does.
pub open spec fn last_write(lines: Seq<String>, year: PlaceDataSet, at: TileLocation, n: nat) -> nat
    decreases n,
{
    if n == 0 {
        0
    } else if writes_at(lines, year, n as int, at) {
        n
    } else {
        last_write(lines, year, at, (n - 1) as nat)
    }
}

/// The line with the number `n` comes before the whiteout.
pub open spec fn before_whiteout(n: int, whiteout_line: int) -> bool {
    !(1 <= whiteout_line <= n)
}

/// How many of the first `n` lines come before the whiteout.
pub open spec fn lines_before_whiteout(n: nat, whiteout_line: int) -> nat {
    if 1 <= whiteout_line <= n {
        (whiteout_line - 1) as nat
    } else {
        n
    }
}

/// How many of the first `n` lines are records of `user`.
pub open spec fn placements(user: Seq<char>, lines: Seq<String>, year: PlaceDataSet, n: nat) -> nat
    decreases n,
{
    if n == 0 {
        0
    } else {
        placements(user, lines, year, (n - 1) as nat) + if record_at(lines, year, n as int)
            matches Some(record) && record.user_id == user {
            1nat
        } else {
            0nat
        }
    }
}

/// The last line that writes a tile is a line that writes it, and no line
/// after it does, up to the `n`-th.
pub proof fn lemma_last_write(lines: Seq<String>, year: PlaceDataSet, at: TileLocation, n: nat)
    requires
        n <= lines.len(),
    ensures
        last_write(lines, year, at, n) <= n,
        last_write(lines, year, at, n) > 0 ==> writes_at(
            lines,
            year,
            last_write(lines, year, at, n) as int,
            at,
        ),
        forall|j: int|
            last_write(lines, year, at, n) < j <= n ==> !writes_at(lines, year, j, at),
    decreases n,
{
    if n > 0 && !writes_at(lines, year, n as int, at) {
        lemma_last_write(lines, year, at, (n - 1) as nat);
    }
}

/// What the replay holds after the first `n` lines, tile by tile.
///
/// The whiteout is reached from its line on.  The count is the number of
/// records of `user`.  A tile is among those of the end exactly if the last
/// line that wrote it is a record of `user`, and it carries the time of that
/// record.  A tile is among those of the whiteout exactly if the last line
/// before the whiteout that wrote it is a record of `user`, and it carries
/// the colour of that record.
pub proof fn lemma_replay_by_last_write(
    user: Seq<char>,
    lines: Seq<String>,
    year: PlaceDataSet,
    whiteout_line: int,
    n: nat,
    at: TileLocation,
)
    requires
        n <= lines.len(),
    ensures
        ({
            let state = replay_upto(user, lines, year, whiteout_line, n);
            let last = last_write(lines, year, at, n);
            let early = last_write(lines, year, at, lines_before_whiteout(n, whiteout_line));
            &&& state.reached_whiteout == (1 <= whiteout_line <= n)
            &&& state.tiles_placed == placements(user, lines, year, n)
            &&& state.end_tiles.contains_key(at) <==> last > 0 && record_at(
                lines,
                year,
                last as int,
            )->0.user_id == user
            &&& state.end_tiles.contains_key(at) ==> state.end_tiles[at] == record_at(
                lines,
                year,
                last as int,
            )->0.timestamp
            &&& state.whiteout_tiles.contains_key(at) <==> early > 0 && record_at(
                lines,
                year,
                early as int,
            )->0.user_id == user
            &&& state.whiteout_tiles.contains_key(at) ==> state.whiteout_tiles[at] == record_at(
                lines,
                year,
                early as int,
            )->0.pixel_color
        }),
    decreases n,
{
    if n > 0 {
        lemma_replay_by_last_write(user, lines, year, whiteout_line, (n - 1) as nat, at);
        lemma_last_write(lines, year, at, (n - 1) as nat);
        lemma_last_write(lines, year, at, lines_before_whiteout((n - 1) as nat, whiteout_line));
    }
}

/// The last writer wins, at the whiteout.
///
/// Let the line `i` be a record of `user` that writes the tile `at` before
/// the whiteout, and let every later line before the whiteout that writes
/// `at` be a record of `user` too, with the colour of line `i`.  Then the
/// tile is among those of the whiteout, with that colour.
pub proof fn lemma_last_writer_wins(
    user: Seq<char>,
    lines: Seq<String>,
    year: PlaceDataSet,
    whiteout_line: int,
    i: int,
    at: TileLocation,
)
    requires
        1 <= i <= lines.len(),
        before_whiteout(i, whiteout_line),
        writes_at(lines, year, i, at),
        record_at(lines, year, i)->0.user_id == user,
        forall|j: int|
            i < j <= lines.len() && before_whiteout(j, whiteout_line) && #[trigger] writes_at(
                lines,
                year,
                j,
                at,
            ) ==> record_at(lines, year, j)->0.user_id == user && record_at(
                lines,
                year,
                j,
            )->0.pixel_color == record_at(lines, year, i)->0.pixel_color,
    ensures
        spec_replay(user, lines, year, whiteout_line).whiteout_tiles.contains_key(at),
        spec_replay(user, lines, year, whiteout_line).whiteout_tiles[at] == record_at(
            lines,
            year,
            i,
        )->0.pixel_color,
{
    let m = lines_before_whiteout(lines.len(), whiteout_line);
    lemma_replay_by_last_write(user, lines, year, whiteout_line, lines.len(), at);
    lemma_last_write(lines, year, at, m);
    let early = last_write(lines, year, at, m);
    assert(early >= i);
    if early > i {
        assert(writes_at(lines, year, early as int, at));
    }
}

/// The last writer wins, at the end.
///
/// Let the line `i` be a record of `user` that writes the tile `at`, and
/// let every later line that writes `at` be a record of `user` too, made at
/// the time of line `i`.  Then the tile is among those of the end, with that
/// time.
pub proof fn lemma_last_writer_wins_at_end(
    user: Seq<char>,
    lines: Seq<String>,
    year: PlaceDataSet,
    whiteout_line: int,
    i: int,
    at: TileLocation,
)
    requires
        1 <= i <= lines.len(),
        writes_at(lines, year, i, at),
        record_at(lines, year, i)->0.user_id == user,
        forall|j: int|
            i < j <= lines.len() && #[trigger] writes_at(lines, year, j, at) ==> record_at(
                lines,
                year,
                j,
            )->0.user_id == user && record_at(lines, year, j)->0.timestamp == record_at(
                lines,
                year,
                i,
            )->0.timestamp,
    ensures
        spec_replay(user, lines, year, whiteout_line).end_tiles.contains_key(at),
        spec_replay(user, lines, year, whiteout_line).end_tiles[at] == record_at(
            lines,
            year,
            i,
        )->0.timestamp,
{
    lemma_replay_by_last_write(user, lines, year, whiteout_line, lines.len(), at);
    lemma_last_write(lines, year, at, lines.len());
    let last = last_write(lines, year, at, lines.len());
    assert(last >= i);
    if last > i {
        assert(writes_at(lines, year, last as int, at));
    }
}

/// A tile that anyone else wrote last is not the author's: where the last
/// line before the whiteout that writes `at` is a record of someone other
/// than `user`, the tile is not among those of the whiteout.
pub proof fn lemma_overwritten_is_lost(
    user: Seq<char>,
    lines: Seq<String>,
    year: PlaceDataSet,
    whiteout_line: int,
    j: int,
    at: TileLocation,
)
    requires
        1 <= j <= lines.len(),
        before_whiteout(j, whiteout_line),
        writes_at(lines, year, j, at),
        record_at(lines, year, j)->0.user_id != user,
        forall|k: int|
            j < k <= lines.len() && before_whiteout(k, whiteout_line) ==> !#[trigger] writes_at(
                lines,
                year,
                k,
                at,
            ),
    ensures
        !spec_replay(user, lines, year, whiteout_line).whiteout_tiles.contains_key(at),
{
    let m = lines_before_whiteout(lines.len(), whiteout_line);
    lemma_replay_by_last_write(user, lines, year, whiteout_line, lines.len(), at);
    lemma_last_write(lines, year, at, m);
    let early = last_write(lines, year, at, m);
    assert(early >= j);
    if early > j {
        assert(writes_at(lines, year, early as int, at));
    }
}

} // verus!
