//! What holds of every scan.

use crate::candidates::{shortlist, Candidates};
use crate::geometry::TileRegion;
use crate::record::{spec_parse, PlaceDataSet};
use crate::timestamp::spec_parse_time;
use crate::scanner::{
    is_candidate, lemma_matching_areas, lemma_required_list, matches_upto, outside_all,
    required_upto, spec_candidates, spec_find_user, spec_line_matches, spec_pass, spec_required,
    spec_scan, spec_step, ScanPass, Settings,
};
use crate::search::SearchArea;
use crate::sequences::{lemma_last_contains, lemma_pushed_contains};
use vstd::prelude::*;

verus! {

/// Who is on the shortlist: the authors on the roll who are in the table and
/// have matched every rectangle that is required, each once.
pub proof fn lemma_shortlist(
    roll: Seq<Seq<char>>,
    table: Map<Seq<char>, Set<TileRegion>>,
    required: Set<TileRegion>,
)
    ensures
        shortlist(roll, table, required).no_duplicates(),
        forall|author: Seq<char>| #[trigger]
            shortlist(roll, table, required).contains(author) <==> roll.contains(author)
                && table.contains_key(author) && required.subset_of(table[author]),
    decreases roll.len(),
{
    let list = shortlist(roll, table, required);
    if roll.len() > 0 {
        let front = roll.drop_last();
        let last = roll.last();
        let rest = shortlist(front, table, required);
        lemma_shortlist(front, table, required);
        assert forall|author: Seq<char>| roll.contains(author) <==> front.contains(author)
            || author == last by {
            lemma_last_contains(roll, author);
        }
        if list != rest {
            assert(list == rest.push(last));
            assert(!rest.contains(last));
            assert forall|author: Seq<char>| list.contains(author) <==> rest.contains(author)
                || author == last by {
                lemma_pushed_contains(rest, last, author);
            }
            assert forall|i: int, j: int| 0 <= i < list.len() && 0 <= j < list.len() && i
                != j implies list[i] != list[j] by {
                if i < rest.len() && j < rest.len() {
                    assert(rest[i] != rest[j]);
                } else if i < rest.len() {
                    assert(rest.contains(rest[i]));
                } else {
                    assert(rest.contains(rest[j]));
                }
            }
        }
    }
}

/// A step of a pass keeps the table in order: each of its authors stands on
/// the roll.
pub proof fn lemma_step_keeps_listed(
    pass: ScanPass,
    table: Candidates,
    line: Seq<char>,
    locations: Seq<SearchArea>,
    year: PlaceDataSet,
)
    requires
        table.listed(),
    ensures
        spec_step(pass, table, line, locations, year).listed(),
{
    let after = spec_step(pass, table, line, locations, year);
    assert forall|author: Seq<char>| #[trigger]
        after.matched.contains_key(author) implies after.roll.contains(author) by {
        if table.matched.contains_key(author) {
            assert(table.roll.contains(author));
            if after.roll != table.roll {
                lemma_pushed_contains(table.roll, after.roll.last(), author);
                assert(after.roll =~= table.roll.push(after.roll.last()));
            }
        } else {
            assert(after.roll == table.roll.push(author));
            lemma_pushed_contains(table.roll, author, author);
        }
    }
}

/// A pass keeps the table in order.
pub proof fn lemma_pass_keeps_listed(
    pass: ScanPass,
    table: Candidates,
    lines: Seq<String>,
    locations: Seq<SearchArea>,
    year: PlaceDataSet,
)
    requires
        table.listed(),
    ensures
        spec_pass(pass, table, lines, locations, year).listed(),
    decreases lines.len(),
{
    if lines.len() > 0 {
        lemma_pass_keeps_listed(pass, table, lines.drop_last(), locations, year);
        lemma_step_keeps_listed(
            pass,
            spec_pass(pass, table, lines.drop_last(), locations, year),
            lines.last()@,
            locations,
            year,
        );
    }
}

/// The candidates are the authors who are in the table at the end of the
/// scan and have matched every area that is not optional; none is listed
/// twice.
pub proof fn lemma_candidates(
    lines: Seq<String>,
    locations: Seq<SearchArea>,
    year: PlaceDataSet,
    no_edits_outside: bool,
)
    ensures
        spec_candidates(lines, locations, year, no_edits_outside).no_duplicates(),
        forall|author: Seq<char>| #[trigger]
            spec_candidates(lines, locations, year, no_edits_outside).contains(author)
                <==> is_candidate(lines, locations, year, no_edits_outside, author),
{
    let included = spec_pass(ScanPass::Inclusion, Candidates::none(), lines, locations, year);
    lemma_pass_keeps_listed(ScanPass::Inclusion, Candidates::none(), lines, locations, year);
    if no_edits_outside {
        lemma_pass_keeps_listed(ScanPass::Exclusion, included, lines, locations, year);
    }
    let table = spec_scan(lines, locations, year, no_edits_outside);
    lemma_shortlist(table.roll, table.matched, spec_required(locations));
}

/// Each candidate has matched every area that is not optional: the
/// rectangle of each such area is among those entered under the candidate
/// at the end of the scan.
pub proof fn lemma_candidates_match_required(
    lines: Seq<String>,
    locations: Seq<SearchArea>,
    year: PlaceDataSet,
    no_edits_outside: bool,
    i: int,
    k: int,
)
    requires
        0 <= i < spec_candidates(lines, locations, year, no_edits_outside).len(),
        0 <= k < locations.len(),
        !locations[k].is_optional,
    ensures
        ({
            let author = spec_candidates(lines, locations, year, no_edits_outside)[i];
            let table = spec_scan(lines, locations, year, no_edits_outside).matched;
            table.contains_key(author) && table[author].contains(locations[k].area)
        }),
{
    let names = spec_candidates(lines, locations, year, no_edits_outside);
    lemma_candidates(lines, locations, year, no_edits_outside);
    assert(names.contains(names[i]));
    assert(is_candidate(lines, locations, year, no_edits_outside, names[i]));
    lemma_required_list(locations, locations.len() as int);
    assert(required_upto(locations, locations.len() as int).contains(locations[k].area));
    assert(spec_required(locations).contains(locations[k].area));
}

/// The second pass only strikes: whoever is in the table after it was in
/// the table before it, with the same rectangles.
pub proof fn lemma_exclusion_only_strikes(
    table: Candidates,
    lines: Seq<String>,
    locations: Seq<SearchArea>,
    year: PlaceDataSet,
    author: Seq<char>,
)
    requires
        spec_pass(ScanPass::Exclusion, table, lines, locations, year).matched.contains_key(author),
    ensures
        table.matched.contains_key(author),
        spec_pass(ScanPass::Exclusion, table, lines, locations, year).matched[author]
            == table.matched[author],
    decreases lines.len(),
{
    if lines.len() > 0 {
        lemma_exclusion_only_strikes(table, lines.drop_last(), locations, year, author);
    }
}

/// The second pass strikes the author of each record that falls into none
/// of the areas, and a later line does not bring the author back.
pub proof fn lemma_exclusion_strikes(
    table: Candidates,
    lines: Seq<String>,
    locations: Seq<SearchArea>,
    year: PlaceDataSet,
    j: int,
    author: Seq<char>,
)
    requires
        0 <= j < lines.len(),
        spec_parse(lines[j]@, year) matches Ok(record) && record.user_id == author && outside_all(
            locations,
            record.coordinate,
        ),
    ensures
        !spec_pass(ScanPass::Exclusion, table, lines, locations, year).matched.contains_key(
            author,
        ),
    decreases lines.len(),
{
    if j < lines.len() - 1 {
        assert(lines.drop_last()[j] == lines[j]);
        lemma_exclusion_strikes(table, lines.drop_last(), locations, year, j, author);
    }
}

/// Where the search is restricted to the areas, an author who placed
/// anything outside all of them is no candidate, whatever else the author
/// has matched, before or after.
pub proof fn lemma_outsider_is_no_candidate(
    lines: Seq<String>,
    locations: Seq<SearchArea>,
    year: PlaceDataSet,
    j: int,
    author: Seq<char>,
)
    requires
        0 <= j < lines.len(),
        spec_parse(lines[j]@, year) matches Ok(record) && record.user_id == author && outside_all(
            locations,
            record.coordinate,
        ),
    ensures
        !is_candidate(lines, locations, year, true, author),
        !spec_candidates(lines, locations, year, true).contains(author),
{
    let included = spec_pass(ScanPass::Inclusion, Candidates::none(), lines, locations, year);
    lemma_exclusion_strikes(included, lines, locations, year, j, author);
    lemma_candidates(lines, locations, year, true);
}

/// The line at place `j` is a record of `author` whose time can be read, and
/// the area at place `i` matches it in time, colour and place.
pub open spec fn line_matches_area(
    lines: Seq<String>,
    locations: Seq<SearchArea>,
    year: PlaceDataSet,
    j: int,
    i: int,
    author: Seq<char>,
) -> bool {
    &&& 0 <= j < lines.len()
    &&& 0 <= i < locations.len()
    &&& spec_parse(lines[j]@, year) matches Ok(record)
    &&& record.user_id == author
    &&& spec_parse_time(record.timestamp) matches Some(time)
    &&& locations[i].admits(time, record)
}

/// Nothing stands in the table without a line behind it: where a rectangle
/// is entered under an author after the first pass, a line of the log is a
/// record of that author which an area with that rectangle matches.
pub proof fn lemma_matched_has_a_line(
    lines: Seq<String>,
    locations: Seq<SearchArea>,
    year: PlaceDataSet,
    author: Seq<char>,
    region: TileRegion,
)
    requires
        spec_pass(
            ScanPass::Inclusion,
            Candidates::none(),
            lines,
            locations,
            year,
        ).matched.contains_key(author),
        spec_pass(
            ScanPass::Inclusion,
            Candidates::none(),
            lines,
            locations,
            year,
        ).matched[author].contains(region),
    ensures
        exists|j: int, i: int| #[trigger]
            line_matches_area(lines, locations, year, j, i, author) && locations[i].area
                == region,
    decreases lines.len(),
{
    if lines.len() > 0 {
        let front = lines.drop_last();
        let before = spec_pass(ScanPass::Inclusion, Candidates::none(), front, locations, year);
        if before.matched.contains_key(author) && before.matched[author].contains(region) {
            lemma_matched_has_a_line(front, locations, year, author, region);
            let (j, i) = choose|j: int, i: int| #[trigger]
                line_matches_area(front, locations, year, j, i, author) && locations[i].area
                    == region;
            assert(front[j] == lines[j]);
            assert(line_matches_area(lines, locations, year, j, i, author));
        } else {
            let last = lines.len() - 1;
            let read = spec_line_matches(lines[last]@, locations, year);
            assert(read is Some);
            let record = spec_parse(lines[last]@, year)->Ok_0;
            let time = spec_parse_time(record.timestamp)->0;
            lemma_matching_areas(locations, time, record, locations.len() as int);
            let found = matches_upto(locations, time, record, locations.len() as int);
            assert(found.contains(region));
            let i = choose|i: int|
                0 <= i < locations.len() && (#[trigger] locations[i]).admits(time, record)
                    && locations[i].area == region;
            assert(line_matches_area(lines, locations, year, last, i, author));
        }
    }
}

/// Each candidate has a line behind every area that is not optional: for
/// each such area, a line of the log is a record of the candidate which an
/// area with the same rectangle matches.
pub proof fn lemma_candidate_has_lines(
    lines: Seq<String>,
    locations: Seq<SearchArea>,
    year: PlaceDataSet,
    no_edits_outside: bool,
    author: Seq<char>,
    k: int,
)
    requires
        is_candidate(lines, locations, year, no_edits_outside, author),
        0 <= k < locations.len(),
        !locations[k].is_optional,
    ensures
        spec_scan(lines, locations, year, no_edits_outside).matched[author].contains(
            locations[k].area,
        ),
        exists|j: int, i: int| #[trigger]
            line_matches_area(lines, locations, year, j, i, author) && locations[i].area
                == locations[k].area,
{
    let included = spec_pass(ScanPass::Inclusion, Candidates::none(), lines, locations, year);
    lemma_required_list(locations, locations.len() as int);
    assert(required_upto(locations, locations.len() as int).contains(locations[k].area));
    assert(spec_required(locations).contains(locations[k].area));
    if no_edits_outside {
        lemma_exclusion_only_strikes(included, lines, locations, year, author);
    }
    lemma_matched_has_a_line(lines, locations, year, author, locations[k].area);
}

/// Whoever the search finds is a candidate: where the settings name no
/// author and the search finds one, that author is in the table at the end
/// of the scan and has matched every area that is not optional.
pub proof fn lemma_found_user_is_candidate(
    settings: Settings,
    lines: Seq<String>,
    choice: Option<usize>,
)
    requires
        settings.user_id is None,
        spec_find_user(settings, lines, choice) is Ok,
    ensures
        is_candidate(
            lines,
            settings.search_areas@,
            settings.year,
            settings.no_edits_outside,
            spec_find_user(settings, lines, choice)->Ok_0,
        ),
{
    let names = spec_candidates(
        lines,
        settings.search_areas@,
        settings.year,
        settings.no_edits_outside,
    );
    let found = spec_find_user(settings, lines, choice)->Ok_0;
    lemma_candidates(lines, settings.search_areas@, settings.year, settings.no_edits_outside);
    if names.len() == 1 {
        assert(names[0] == found);
    } else {
        assert(names[choice->0 as int] == found);
    }
    assert(names.contains(found));
}

} // verus!
