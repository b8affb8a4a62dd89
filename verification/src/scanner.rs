//! The search for the author: two passes over the log, then the choice among
//! those who are left.
//!
//! The first pass enters, for each record, the search areas that it matches
//! under its author.  The second pass, if it is asked for, strikes every
//! author who placed anything outside all areas.  At the end the candidates
//! are the authors who have matched every area that is not optional.

use crate::candidates::{matched_in, names_view, shortlist, CandidateTable, Candidates};
use crate::geometry::{LineCoordinate, TileRegion};
use crate::record::{spec_parse, CanvasLine, CanvasRecord, ParseError, PlaceDataSet};
use crate::scan_laws::{lemma_candidates, lemma_found_user_is_candidate};
use crate::search::SearchArea;
use crate::sequences::lemma_pushed_set;
use crate::timestamp::{spec_parse_time, Timestamp};
use vstd::prelude::*;

verus! {

/// What a pass made of one line.
#[derive(Clone, Copy, Debug, PartialEq, Eq, Structural)]
pub enum LineOutcome {
    /// The line was a record and was taken into account.
    Applied,
    /// The line was no record; it was passed over.
    Malformed(ParseError),
    /// The line was a record, but its time could not be read; it was passed
    /// over.
    UnreadableTime,
}

/// The two passes over the log.
#[derive(Clone, Copy, Debug, PartialEq, Eq, Structural)]
pub enum ScanPass {
    /// Enter the areas that each record matches.
    Inclusion,
    /// Strike the authors of records outside all areas.
    Exclusion,
}

/// What the search is given.
#[derive(Clone, Debug)]
pub struct Settings {
    /// The author, where known: then there is nothing to search.
    pub user_id: Option<String>,
    /// Where the log is kept.
    pub csv_location: String,
    pub year: PlaceDataSet,
    pub search_areas: Vec<SearchArea>,
    /// Whether an author who placed anything outside all areas is struck.
    pub no_edits_outside: bool,
}

/// Why no author was found.
#[derive(Clone, Copy, Debug, PartialEq, Eq, Structural)]
pub enum FindError {
    /// No author has matched every area that is not optional.
    NoCandidate,
    /// Several authors are left and none was chosen.
    AmbiguousCandidate,
    /// Several authors are left and the index chosen is none of theirs.
    IndexOutOfBounds,
}

/// The rectangles of those among the first `n` areas that a record made at
/// `time` matches, as a set.
pub open spec fn matches_upto(
    locations: Seq<SearchArea>,
    time: Timestamp,
    record: CanvasRecord,
    n: int,
) -> Set<TileRegion> {
    Set::new(
        |r: TileRegion|
            exists|i: int|
                0 <= i < n && i < locations.len() && (#[trigger] locations[i]).admits(
                    time,
                    record,
                ) && locations[i].area == r,
    )
}

/// The rectangles of those among the first `n` areas that a record made at
/// `time` matches, in the order of the areas, one for each such area.
pub open spec fn matching_areas(
    locations: Seq<SearchArea>,
    time: Timestamp,
    record: CanvasRecord,
    n: int,
) -> Seq<TileRegion>
    decreases n,
{
    if n <= 0 || n > locations.len() {
        Seq::empty()
    } else {
        let rest = matching_areas(locations, time, record, n - 1);
        if locations[n - 1].admits(time, record) {
            rest.push(locations[n - 1].area)
        } else {
            rest
        }
    }
}

/// The list of the rectangles that a record matches holds the rectangles
/// that it matches, and no others.
pub proof fn lemma_matching_areas(
    locations: Seq<SearchArea>,
    time: Timestamp,
    record: CanvasRecord,
    n: int,
)
    requires
        0 <= n <= locations.len(),
    ensures
        matching_areas(locations, time, record, n).to_set() == matches_upto(
            locations,
            time,
            record,
            n,
        ),
    decreases n,
{
    let list = matching_areas(locations, time, record, n);
    let found = matches_upto(locations, time, record, n);
    if n == 0 {
        assert(list.to_set() =~= found);
    } else {
        let rest = matching_areas(locations, time, record, n - 1);
        let fewer = matches_upto(locations, time, record, n - 1);
        lemma_matching_areas(locations, time, record, n - 1);
        if locations[n - 1].admits(time, record) {
            lemma_pushed_set(rest, locations[n - 1].area);
            assert(found =~= fewer.insert(locations[n - 1].area));
        } else {
            assert(found =~= fewer);
        }
    }
}

/// The table after `author` has matched the rectangles `found`: unchanged
/// where there are none.
pub open spec fn with_matches(
    table: Candidates,
    author: Seq<char>,
    found: Set<TileRegion>,
) -> Candidates {
    if found == Set::<TileRegion>::empty() {
        table
    } else {
        Candidates {
            matched: table.matched.insert(
                author,
                matched_in(table.matched, author).union(found),
            ),
            roll: if table.matched.contains_key(author) {
                table.roll
            } else {
                table.roll.push(author)
            },
        }
    }
}

/// The placement falls into none of the areas.
pub open spec fn outside_all(locations: Seq<SearchArea>, shape: LineCoordinate) -> bool {
    forall|i: int| 0 <= i < locations.len() ==> !(#[trigger] locations[i]).reaches(shape)
}

/// The author of the record in `line` and, for each area that the record
/// matches, the rectangle of the area.  There is nothing where the line is
/// no record or the time of the record cannot be read.
pub open spec fn spec_line_matches(
    line: Seq<char>,
    locations: Seq<SearchArea>,
    year: PlaceDataSet,
) -> Option<(Seq<char>, Seq<TileRegion>)> {
    match spec_parse(line, year) {
        Err(_) => None,
        Ok(record) => match spec_parse_time(record.timestamp) {
            None => None,
            Some(time) => Some(
                (record.user_id, matching_areas(locations, time, record, locations.len() as int)),
            ),
        },
    }
}

/// The author of the record in `line`, where the record falls into none of
/// the areas.  There is nothing where the line is no record or falls into
/// an area.
pub open spec fn spec_line_outsider(
    line: Seq<char>,
    locations: Seq<SearchArea>,
    year: PlaceDataSet,
) -> Option<Seq<char>> {
    match spec_parse(line, year) {
        Err(_) => None,
        Ok(record) => if outside_all(locations, record.coordinate) {
            Some(record.user_id)
        } else {
            None
        },
    }
}

/// The table after the first pass has seen `line`: a line that is no
/// record, or whose time cannot be read, changes nothing.
pub open spec fn spec_include(
    table: Candidates,
    line: Seq<char>,
    locations: Seq<SearchArea>,
    year: PlaceDataSet,
) -> Candidates {
    match spec_line_matches(line, locations, year) {
        None => table,
        Some((author, found)) => with_matches(table, author, found.to_set()),
    }
}

/// The table after the second pass has seen `line`: the author of a record
/// outside all areas leaves it.
pub open spec fn spec_exclude(
    table: Candidates,
    line: Seq<char>,
    locations: Seq<SearchArea>,
    year: PlaceDataSet,
) -> Candidates {
    match spec_line_outsider(line, locations, year) {
        None => table,
        Some(author) => table.without(author),
    }
}

/// What the first pass reports of `line`.
pub open spec fn include_outcome(line: Seq<char>, year: PlaceDataSet) -> LineOutcome {
    match spec_parse(line, year) {
        Err(e) => LineOutcome::Malformed(e),
        Ok(record) => match spec_parse_time(record.timestamp) {
            None => LineOutcome::UnreadableTime,
            Some(_) => LineOutcome::Applied,
        },
    }
}

/// What the second pass reports of `line`.
pub open spec fn exclude_outcome(line: Seq<char>, year: PlaceDataSet) -> LineOutcome {
    match spec_parse(line, year) {
        Err(e) => LineOutcome::Malformed(e),
        Ok(_) => LineOutcome::Applied,
    }
}

/// The table after one step of `pass` on `line`.
pub open spec fn spec_step(
    pass: ScanPass,
    table: Candidates,
    line: Seq<char>,
    locations: Seq<SearchArea>,
    year: PlaceDataSet,
) -> Candidates {
    match pass {
        ScanPass::Inclusion => spec_include(table, line, locations, year),
        ScanPass::Exclusion => spec_exclude(table, line, locations, year),
    }
}

/// The table after `pass` has gone over `lines` from the first to the last.
pub open spec fn spec_pass(
    pass: ScanPass,
    table: Candidates,
    lines: Seq<String>,
    locations: Seq<SearchArea>,
    year: PlaceDataSet,
) -> Candidates
    decreases lines.len(),
{
    if lines.len() == 0 {
        table
    } else {
        spec_step(
            pass,
            spec_pass(pass, table, lines.drop_last(), locations, year),
            lines.last()@,
            locations,
            year,
        )
    }
}

/// The table at the end of the scan: after the first pass and, if it is
/// asked for, the second.
pub open spec fn spec_scan(
    lines: Seq<String>,
    locations: Seq<SearchArea>,
    year: PlaceDataSet,
    no_edits_outside: bool,
) -> Candidates {
    let included = spec_pass(ScanPass::Inclusion, Candidates::none(), lines, locations, year);
    if no_edits_outside {
        spec_pass(ScanPass::Exclusion, included, lines, locations, year)
    } else {
        included
    }
}

/// The rectangles of those among the first `n` areas that are not optional,
/// in the order of the areas, one for each such area.
pub open spec fn required_list(locations: Seq<SearchArea>, n: int) -> Seq<TileRegion>
    decreases n,
{
    if n <= 0 || n > locations.len() {
        Seq::empty()
    } else {
        let rest = required_list(locations, n - 1);
        if locations[n - 1].is_optional {
            rest
        } else {
            rest.push(locations[n - 1].area)
        }
    }
}

/// The rectangles of those among the first `n` areas that are not optional,
/// as a set.
pub open spec fn required_upto(locations: Seq<SearchArea>, n: int) -> Set<TileRegion> {
    Set::new(
        |r: TileRegion|
            exists|i: int|
                0 <= i < n && i < locations.len() && !(#[trigger] locations[i]).is_optional
                    && locations[i].area == r,
    )
}

/// The list of the rectangles that are required holds the rectangles that
/// are required, and no others.
pub proof fn lemma_required_list(locations: Seq<SearchArea>, n: int)
    requires
        0 <= n <= locations.len(),
    ensures
        required_list(locations, n).to_set() == required_upto(locations, n),
    decreases n,
{
    let list = required_list(locations, n);
    let found = required_upto(locations, n);
    if n == 0 {
        assert(list.to_set() =~= found);
    } else {
        let rest = required_list(locations, n - 1);
        let fewer = required_upto(locations, n - 1);
        lemma_required_list(locations, n - 1);
        if !locations[n - 1].is_optional {
            lemma_pushed_set(rest, locations[n - 1].area);
            assert(found =~= fewer.insert(locations[n - 1].area));
        } else {
            assert(found =~= fewer);
        }
    }
}

/// The rectangles of the areas that are not optional.
pub open spec fn spec_required(locations: Seq<SearchArea>) -> Set<TileRegion> {
    required_list(locations, locations.len() as int).to_set()
}

/// `author` is a candidate: in the table at the end of the scan, with every
/// rectangle that is required among those matched.
pub open spec fn is_candidate(
    lines: Seq<String>,
    locations: Seq<SearchArea>,
    year: PlaceDataSet,
    no_edits_outside: bool,
    author: Seq<char>,
) -> bool {
    let table = spec_scan(lines, locations, year, no_edits_outside).matched;
    table.contains_key(author) && spec_required(locations).subset_of(table[author])
}

/// The candidates at the end of the scan, in the order in which they came
/// into the table.
pub open spec fn spec_candidates(
    lines: Seq<String>,
    locations: Seq<SearchArea>,
    year: PlaceDataSet,
    no_edits_outside: bool,
) -> Seq<Seq<char>> {
    let table = spec_scan(lines, locations, year, no_edits_outside);
    shortlist(table.roll, table.matched, spec_required(locations))
}

/// Who is found among `names`, given the index chosen, if any: none where
/// the list is empty; the one where it has one entry, whatever was chosen;
/// else the one at the index.
pub open spec fn spec_resolve(names: Seq<Seq<char>>, choice: Option<usize>) -> Result<
    Seq<char>,
    FindError,
> {
    if names.len() == 0 {
        Err(FindError::NoCandidate)
    } else if names.len() == 1 {
        Ok(names[0])
    } else {
        match choice {
            None => Err(FindError::AmbiguousCandidate),
            Some(index) => if index < names.len() {
                Ok(names[index as int])
            } else {
                Err(FindError::IndexOutOfBounds)
            },
        }
    }
}

/// Who the search finds: the author that the settings name, else the one
/// that the scan of `lines` and the choice leave.
pub open spec fn spec_find_user(
    settings: Settings,
    lines: Seq<String>,
    choice: Option<usize>,
) -> Result<Seq<char>, FindError> {
    match settings.user_id {
        Some(name) => Ok(name@),
        None => spec_resolve(
            spec_candidates(
                lines,
                settings.search_areas@,
                settings.year,
                settings.no_edits_outside,
            ),
            choice,
        ),
    }
}

/// The author that was found, held against who had to be found.
pub open spec fn resolved_is(
    found: Result<String, FindError>,
    expected: Result<Seq<char>, FindError>,
) -> bool {
    match found {
        Ok(name) => expected == Ok::<Seq<char>, FindError>(name@),
        Err(e) => expected == Err::<Seq<char>, FindError>(e),
    }
}

/// Reads one line for the first pass: the author of the record and, for
/// each area that the record matches, the rectangle of the area.  The table
/// is not needed for this, so many lines can be read at a time.
pub fn line_matches(line: &str, locations: &Vec<SearchArea>, year: &PlaceDataSet) -> (found:
    Result<(String, Vec<TileRegion>), LineOutcome>)
    ensures
        match found {
            Ok((author, regions)) => spec_line_matches(line@, locations@, *year) == Some(
                (author@, regions@),
            ),
            Err(outcome) => spec_line_matches(line@, locations@, *year) is None && outcome
                == include_outcome(line@, *year),
        },
{
    let row_result = match CanvasLine::parse(line, year) {
        Ok(row) => row,
        Err(e) => {
            return Err(LineOutcome::Malformed(e));
        },
    };
    let line_time = match Timestamp::parse(row_result.timestamp.as_str()) {
        Some(time) => time,
        None => {
            return Err(LineOutcome::UnreadableTime);
        },
    };
    let ghost record = row_result@;
    let mut regions: Vec<TileRegion> = Vec::new();
    let mut i: usize = 0;
    while i < locations.len()
        invariant
            i <= locations@.len(),
            record == row_result@,
            regions@ == matching_areas(locations@, line_time, record, i as int),
        decreases locations@.len() - i,
    {
        if locations[i].matches_at(&line_time, &row_result) {
            regions.push(locations[i].area);
        }
        i = i + 1;
    }
    Ok((row_result.user_id, regions))
}

/// Enters under `author` each of `regions`.  Where there are none, the
/// table stays as it is, and an author who is not in it does not come into
/// it.
pub fn enter_matches(users: &mut CandidateTable, author: &str, regions: &Vec<TileRegion>)
    ensures
        final(users)@ == with_matches(old(users)@, author@, regions@.to_set()),
{
    let ghost before = users@;
    let mut i: usize = 0;
    assert(regions@.take(0).to_set() =~= Set::empty());
    while i < regions.len()
        invariant
            i <= regions@.len(),
            users@ == with_matches(before, author@, regions@.take(i as int).to_set()),
        decreases regions@.len() - i,
    {
        let ghost found = regions@.take(i as int).to_set();
        let ghost more = regions@.take(i + 1).to_set();
        let ghost now = users@;
        users.record(author, regions[i]);
        proof {
            let area = regions@[i as int];
            let known = matched_in(before.matched, author@);
            assert(regions@.take(i + 1) =~= regions@.take(i as int).push(area));
            lemma_pushed_set(regions@.take(i as int), area);
            assert(more.contains(area));
            assert(more != Set::<TileRegion>::empty());
            if found =~= Set::empty() {
                assert(now == before);
                assert(known.insert(area) =~= known.union(more));
            } else {
                assert(found != Set::<TileRegion>::empty());
                assert(matched_in(now.matched, author@).insert(area) =~= known.union(more));
                assert(now.matched.insert(author@, known.union(more)) =~= before.matched.insert(
                    author@,
                    known.union(more),
                ));
            }
        }
        i = i + 1;
    }
    assert(regions@.take(i as int) =~= regions@);
}

/// The first pass on one line: enters under the author of the record each
/// area that the record matches.
pub fn add_internal_edits(
    users: &mut CandidateTable,
    line: &str,
    locations: &Vec<SearchArea>,
    year: &PlaceDataSet,
) -> (outcome: LineOutcome)
    ensures
        final(users)@ == spec_include(old(users)@, line@, locations@, *year),
        outcome == include_outcome(line@, *year),
{
    match line_matches(line, locations, year) {
        Ok((author, regions)) => {
            enter_matches(users, author.as_str(), &regions);
            LineOutcome::Applied
        },
        Err(outcome) => outcome,
    }
}

/// Whether the placement falls into none of the areas.
pub fn lies_outside(locations: &Vec<SearchArea>, coordinate: &LineCoordinate) -> (outside: bool)
    ensures
        outside == outside_all(locations@, *coordinate),
{
    let mut i: usize = 0;
    while i < locations.len()
        invariant
            i <= locations@.len(),
            forall|k: int| 0 <= k < i ==> !(#[trigger] locations@[k]).reaches(*coordinate),
        decreases locations@.len() - i,
    {
        if locations[i].touched_by(coordinate) {
            return false;
        }
        i = i + 1;
    }
    true
}

/// Reads one line for the second pass: the author to strike, where the
/// record falls into none of the areas.
pub fn line_outsider(line: &str, locations: &Vec<SearchArea>, year: &PlaceDataSet) -> (found:
    Result<Option<String>, ParseError>)
    ensures
        match found {
            Ok(Some(author)) => spec_line_outsider(line@, locations@, *year) == Some(author@),
            Ok(None) => spec_line_outsider(line@, locations@, *year) is None && spec_parse(
                line@,
                *year,
            ) is Ok,
            Err(e) => spec_parse(line@, *year) == Err::<CanvasRecord, ParseError>(e),
        },
{
    let row_result = match CanvasLine::parse(line, year) {
        Ok(row) => row,
        Err(e) => {
            return Err(e);
        },
    };
    if lies_outside(locations, &row_result.coordinate) {
        Ok(Some(row_result.user_id))
    } else {
        Ok(None)
    }
}

/// The second pass on one line: strikes the author of a record that falls
/// into none of the areas.
pub fn remove_external_edits(
    users: &mut CandidateTable,
    line: &str,
    locations: &Vec<SearchArea>,
    year: &PlaceDataSet,
) -> (outcome: LineOutcome)
    ensures
        final(users)@ == spec_exclude(old(users)@, line@, locations@, *year),
        outcome == exclude_outcome(line@, *year),
{
    match line_outsider(line, locations, year) {
        Ok(Some(author)) => {
            users.evict(author.as_str());
            LineOutcome::Applied
        },
        Ok(None) => LineOutcome::Applied,
        Err(e) => LineOutcome::Malformed(e),
    }
}

/// One pass over the lines of the log, the header left out, from the first
/// to the last.
pub fn mutate_user_list(
    pass: ScanPass,
    locations: &Vec<SearchArea>,
    lines: &Vec<String>,
    users: &mut CandidateTable,
    year: &PlaceDataSet,
)
    ensures
        final(users)@ == spec_pass(pass, old(users)@, lines@, locations@, *year),
{
    let mut i: usize = 0;
    assert(lines@.take(0) =~= Seq::empty());
    while i < lines.len()
        invariant
            i <= lines@.len(),
            users@ == spec_pass(pass, old(users)@, lines@.take(i as int), locations@, *year),
        decreases lines@.len() - i,
    {
        assert(lines@.take(i + 1).drop_last() =~= lines@.take(i as int));
        assert(lines@.take(i + 1).last() == lines@[i as int]);
        match pass {
            ScanPass::Inclusion => {
                add_internal_edits(users, lines[i].as_str(), locations, year);
            },
            ScanPass::Exclusion => {
                remove_external_edits(users, lines[i].as_str(), locations, year);
            },
        }
        i = i + 1;
    }
    assert(lines@.take(i as int) =~= lines@);
}

/// The rectangles of the areas that are not optional, in the order of the
/// areas.
pub fn required_areas(locations: &Vec<SearchArea>) -> (required: Vec<TileRegion>)
    ensures
        required@ == required_list(locations@, locations@.len() as int),
{
    let mut required: Vec<TileRegion> = Vec::new();
    let mut i: usize = 0;
    while i < locations.len()
        invariant
            i <= locations@.len(),
            required@ == required_list(locations@, i as int),
        decreases locations@.len() - i,
    {
        if !locations[i].is_optional {
            required.push(locations[i].area);
        }
        i = i + 1;
    }
    required
}

/// The whole scan: the candidates among the authors of `lines`, in the
/// order in which they came into the table.
pub fn find_candidates(settings: &Settings, lines: &Vec<String>) -> (names: Vec<String>)
    ensures
        names_view(names@) == spec_candidates(
            lines@,
            settings.search_areas@,
            settings.year,
            settings.no_edits_outside,
        ),
        forall|i: int|
            0 <= i < names@.len() ==> is_candidate(
                lines@,
                settings.search_areas@,
                settings.year,
                settings.no_edits_outside,
                (#[trigger] names@[i])@,
            ),
{
    let mut users = CandidateTable::new();
    mutate_user_list(
        ScanPass::Inclusion,
        &settings.search_areas,
        lines,
        &mut users,
        &settings.year,
    );
    if settings.no_edits_outside {
        mutate_user_list(
            ScanPass::Exclusion,
            &settings.search_areas,
            lines,
            &mut users,
            &settings.year,
        );
    }
    let required = required_areas(&settings.search_areas);
    let names = users.into_candidates(&required);
    proof {
        lemma_candidates(
            lines@,
            settings.search_areas@,
            settings.year,
            settings.no_edits_outside,
        );
        assert forall|i: int| 0 <= i < names@.len() implies is_candidate(
            lines@,
            settings.search_areas@,
            settings.year,
            settings.no_edits_outside,
            (#[trigger] names@[i])@,
        ) by {
            assert(names_view(names@)[i] == names@[i]@);
            assert(names_view(names@).contains(names@[i]@));
        }
    }
    names
}

/// The candidate at `index`, if there is one.
pub fn select(candidates: &Vec<String>, index: usize) -> (chosen: Result<String, FindError>)
    ensures
        resolved_is(
            chosen,
            if index < candidates@.len() {
                Ok(candidates@[index as int]@)
            } else {
                Err(FindError::IndexOutOfBounds)
            },
        ),
{
    if index < candidates.len() {
        Ok(candidates[index].clone())
    } else {
        Err(FindError::IndexOutOfBounds)
    }
}

/// Who is found among the candidates; see [`spec_resolve`].
pub fn resolve(candidates: &Vec<String>, choice: Option<usize>) -> (found: Result<
    String,
    FindError,
>)
    ensures
        resolved_is(found, spec_resolve(names_view(candidates@), choice)),
{
    if candidates.len() == 0 {
        Err(FindError::NoCandidate)
    } else if candidates.len() == 1 {
        Ok(candidates[0].clone())
    } else {
        match choice {
            None => Err(FindError::AmbiguousCandidate),
            Some(index) => select(candidates, index),
        }
    }
}

/// Finds the author: the one named in the settings, else the one that the
/// scan of `lines` and the choice leave.  An author that the search finds is
/// a candidate, and so has matched every area that is not optional.
pub fn find_user(settings: &Settings, lines: &Vec<String>, choice: Option<usize>) -> (found:
    Result<String, FindError>)
    ensures
        resolved_is(found, spec_find_user(*settings, lines@, choice)),
        settings.user_id is None ==> (found matches Ok(author) ==> is_candidate(
            lines@,
            settings.search_areas@,
            settings.year,
            settings.no_edits_outside,
            author@,
        )),
{
    proof {
        if settings.user_id is None && spec_find_user(*settings, lines@, choice) is Ok {
            lemma_found_user_is_candidate(*settings, lines@, choice);
        }
    }
    match &settings.user_id {
        Some(name) => Ok(name.clone()),
        None => {
            let names = find_candidates(settings, lines);
            resolve(&names, choice)
        },
    }
}

} // verus!
