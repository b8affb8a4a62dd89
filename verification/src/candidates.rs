//! The table of candidates: which author has matched which search areas.

use crate::geometry::TileRegion;
use crate::sequences::{lemma_next_contains, lemma_pushed_set};
use vstd::hash_map::StringHashMap;
use vstd::prelude::*;

verus! {

/// For each author seen so far, the rectangles of the search areas that the
/// author has matched.
pub struct CandidateTable {
    regions: StringHashMap<Vec<TileRegion>>,
    /// Every author that was ever entered, in the order of entry.
    roll: Vec<String>,
}

/// What a table of candidates holds.
pub struct Candidates {
    /// The authors in the table, each with the rectangles that the author
    /// has matched.
    pub matched: Map<Seq<char>, Set<TileRegion>>,
    /// The authors in the order in which they came into the table.  An
    /// author who was struck stays on the roll, and stands on it once more
    /// after coming back.
    pub roll: Seq<Seq<char>>,
}

/// What each of `names` reads.
pub open spec fn names_view(names: Seq<String>) -> Seq<Seq<char>> {
    names.map_values(|name: String| name@)
}

impl View for CandidateTable {
    type V = Candidates;

    closed spec fn view(&self) -> Candidates {
        Candidates {
            matched: Map::new(
                |author: Seq<char>| self.regions@.contains_key(author),
                |author: Seq<char>| self.regions@[author]@.to_set(),
            ),
            roll: names_view(self.roll@),
        }
    }
}

/// The rectangles that `author` has matched in `table`: none for an author
/// who is not in the table.
pub open spec fn matched_in(table: Map<Seq<char>, Set<TileRegion>>, author: Seq<char>) -> Set<
    TileRegion,
> {
    if table.contains_key(author) {
        table[author]
    } else {
        Set::empty()
    }
}

impl Candidates {
    /// A table without authors.
    pub open spec fn none() -> Candidates {
        Candidates { matched: Map::empty(), roll: Seq::empty() }
    }

    /// The table after `author` has matched `region`.
    pub open spec fn with(self, author: Seq<char>, region: TileRegion) -> Candidates {
        Candidates {
            matched: self.matched.insert(author, matched_in(self.matched, author).insert(region)),
            roll: if self.matched.contains_key(author) {
                self.roll
            } else {
                self.roll.push(author)
            },
        }
    }

    /// The table after `author` has been struck.
    pub open spec fn without(self, author: Seq<char>) -> Candidates {
        Candidates { matched: self.matched.remove(author), roll: self.roll }
    }

    /// Each author of the table stands on the roll.
    pub open spec fn listed(self) -> bool {
        forall|author: Seq<char>| #[trigger]
            self.matched.contains_key(author) ==> self.roll.contains(author)
    }
}

/// The authors on the roll who are in the table and have matched every
/// rectangle of `required`, in the order of the roll, each where the roll
/// names the author first.
pub open spec fn shortlist(
    roll: Seq<Seq<char>>,
    table: Map<Seq<char>, Set<TileRegion>>,
    required: Set<TileRegion>,
) -> Seq<Seq<char>>
    decreases roll.len(),
{
    if roll.len() == 0 {
        Seq::empty()
    } else {
        let front = roll.drop_last();
        let author = roll.last();
        if table.contains_key(author) && required.subset_of(table[author]) && !front.contains(
            author,
        ) {
            shortlist(front, table, required).push(author)
        } else {
            shortlist(front, table, required)
        }
    }
}

/// Whether `list` holds `region`.
pub fn holds_region(list: &Vec<TileRegion>, region: &TileRegion) -> (held: bool)
    ensures
        held == list@.contains(*region),
{
    let mut i: usize = 0;
    while i < list.len()
        invariant
            i <= list@.len(),
            forall|k: int| 0 <= k < i ==> list@[k] != *region,
        decreases list@.len() - i,
    {
        if list[i] == *region {
            return true;
        }
        i = i + 1;
    }
    false
}

/// Whether `list` holds each rectangle of `required`.
pub fn holds_all(list: &Vec<TileRegion>, required: &Vec<TileRegion>) -> (held: bool)
    ensures
        held == required@.to_set().subset_of(list@.to_set()),
{
    let mut i: usize = 0;
    while i < required.len()
        invariant
            i <= required@.len(),
            forall|k: int| 0 <= k < i ==> list@.contains(#[trigger] required@[k]),
        decreases required@.len() - i,
    {
        if !holds_region(list, &required[i]) {
            assert(required@.to_set().contains(required@[i as int]));
            return false;
        }
        i = i + 1;
    }
    assert forall|r: TileRegion| required@.to_set().contains(r) implies list@.to_set().contains(
        r,
    ) by {
        let k = choose|k: int| 0 <= k < required@.len() && required@[k] == r;
        assert(list@.contains(required@[k]));
    }
    true
}

impl CandidateTable {
    /// A table without authors.
    pub fn new() -> (table: CandidateTable)
        ensures
            table@ == Candidates::none(),
    {
        let table = CandidateTable { regions: StringHashMap::new(), roll: Vec::new() };
        assert(table@.matched =~= Map::<Seq<char>, Set<TileRegion>>::empty());
        assert(table@.roll =~= Seq::<Seq<char>>::empty());
        table
    }

    /// The number of authors in the table.
    pub fn len(&self) -> (count: usize)
        ensures
            count == self@.matched.dom().len(),
    {
        assert(self@.matched.dom() =~= self.regions@.dom());
        self.regions.len()
    }

    /// Whether `author` is in the table.
    pub fn has(&self, author: &str) -> (present: bool)
        ensures
            present == self@.matched.contains_key(author@),
    {
        self.regions.contains_key(author)
    }

    /// Whether `author` has matched `region`.
    pub fn has_matched(&self, author: &str, region: &TileRegion) -> (matched: bool)
        ensures
            matched == matched_in(self@.matched, author@).contains(*region),
    {
        match self.regions.get(author) {
            Some(list) => holds_region(list, region),
            None => false,
        }
    }

    /// Enters that `author` has matched `region`.  An author who is not in
    /// the table comes into it, at the end of the roll; a rectangle that the
    /// author has matched before changes nothing.
    pub fn record(&mut self, author: &str, region: TileRegion)
        ensures
            final(self)@ == old(self)@.with(author@, region),
    {
        let mut list: Vec<TileRegion> = Vec::new();
        match self.regions.get(author) {
            Some(known) => {
                let mut i: usize = 0;
                while i < known.len()
                    invariant
                        i <= known@.len(),
                        list@ == known@.take(i as int),
                    decreases known@.len() - i,
                {
                    list.push(known[i]);
                    assert(known@.take(i + 1) =~= known@.take(i as int).push(known@[i as int]));
                    i = i + 1;
                }
                assert(known@.take(i as int) =~= known@);
            },
            None => {
                self.roll.push(author.to_owned());
                assert(list@.to_set() =~= Set::<TileRegion>::empty());
                assert(names_view(self.roll@) =~= names_view(old(self).roll@).push(author@));
            },
        }
        assert(list@.to_set() == matched_in(old(self)@.matched, author@));
        if !holds_region(&list, &region) {
            proof {
                lemma_pushed_set(list@, region);
            }
            list.push(region);
        }
        assert(list@.to_set() =~= matched_in(old(self)@.matched, author@).insert(region));
        self.regions.insert(author.to_owned(), list);
        assert(self@.matched =~= old(self)@.with(author@, region).matched);
    }

    /// Takes `author` out of the table, with all that the author has
    /// matched.
    pub fn evict(&mut self, author: &str)
        ensures
            final(self)@ == old(self)@.without(author@),
    {
        self.regions.remove(author);
        assert(self@.matched =~= old(self)@.matched.remove(author@));
    }

    /// Ends the search: the authors of the table that have matched every
    /// rectangle of `required`, in the order in which they came into the
    /// table.
    pub fn into_candidates(self, required: &Vec<TileRegion>) -> (names: Vec<String>)
        ensures
            names_view(names@) == shortlist(self@.roll, self@.matched, required@.to_set()),
    {
        let mut table = self;
        let mut names: Vec<String> = Vec::new();
        let ghost roll = self@.roll;
        let ghost matched = self@.matched;
        let ghost wanted = required@.to_set();
        let mut i: usize = 0;
        assert(roll.take(0) =~= Seq::empty());
        assert(names_view(names@) =~= Seq::empty());
        while i < table.roll.len()
            invariant
                i <= table.roll@.len(),
                table.roll@ == self.roll@,
                roll == names_view(self.roll@),
                matched == self@.matched,
                wanted == required@.to_set(),
                names_view(names@) == shortlist(roll.take(i as int), matched, wanted),
                forall|a: Seq<char>| #[trigger]
                    table.regions@.contains_key(a) <==> self.regions@.contains_key(a)
                        && !roll.take(i as int).contains(a),
                forall|a: Seq<char>| #[trigger]
                    table.regions@.contains_key(a) ==> table.regions@[a] == self.regions@[a],
            decreases table.roll@.len() - i,
        {
            let ghost seen = roll.take(i as int);
            let ghost next = roll.take(i + 1);
            let ghost author = roll[i as int];
            let ghost before = names@;
            proof {
                assert(author == self.roll@[i as int]@);
                assert(next.drop_last() =~= seen);
                assert(next.last() == author);
                assert forall|a: Seq<char>| next.contains(a) <==> seen.contains(a) || a
                    == author by {
                    lemma_next_contains(roll, i as int, a);
                }
            }
            let keep = match table.regions.get(table.roll[i].as_str()) {
                Some(list) => holds_all(list, required),
                None => false,
            };
            assert(keep == (matched.contains_key(author) && wanted.subset_of(matched[author])
                && !seen.contains(author)));
            table.regions.remove(table.roll[i].as_str());
            if keep {
                let name = table.roll[i].clone();
                names.push(name);
                assert(names_view(names@) =~= names_view(before).push(author));
            }
            i = i + 1;
        }
        assert(roll.take(i as int) =~= roll);
        names
    }
}

} // verus!
