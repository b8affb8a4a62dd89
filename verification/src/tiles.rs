//! A map from tiles to texts, such as the colour or the time of the
//! placement that last wrote the tile.

use crate::geometry::TileLocation;
use std::collections::HashMap;
use vstd::prelude::*;
use vstd::std_specs::hash::spec_hash_map_iter;
use vstd::std_specs::iter::IteratorSpec;

verus! {

broadcast use vstd::std_specs::hash::group_hash_axioms;

/// The number under which a tile is kept: its column and row, each counted
/// from the least coordinate of the grid, as two digits in base 65536.
pub open spec fn key_of(at: TileLocation) -> u32 {
    ((at.x + 32768) * 65536 + (at.y + 32768)) as u32
}

/// The tile that is kept under `key`.
pub open spec fn tile_of(key: u32) -> TileLocation {
    TileLocation { x: (key / 65536 - 32768) as i16, y: (key % 65536 - 32768) as i16 }
}

/// Each tile has a number of its own, and each number is that of a tile.
pub proof fn lemma_keys(at: TileLocation, key: u32)
    ensures
        tile_of(key_of(at)) == at,
        key_of(tile_of(key)) == key,
{
}

/// A map from tiles to texts.
pub struct TileMap {
    cells: HashMap<u32, String>,
}

impl View for TileMap {
    type V = Map<TileLocation, Seq<char>>;

    closed spec fn view(&self) -> Map<TileLocation, Seq<char>> {
        Map::new(
            |at: TileLocation| self.cells@.contains_key(key_of(at)),
            |at: TileLocation| self.cells@[key_of(at)]@,
        )
    }
}

/// The entry for `at` is among `entries`, with the text `text`.
pub open spec fn entries_hold(
    entries: Seq<(TileLocation, String)>,
    at: TileLocation,
    text: Seq<char>,
) -> bool {
    exists|i: int| 0 <= i < entries.len() && (#[trigger] entries[i]).0 == at && entries[i].1@ == text
}

/// No two of `entries` are for the same tile.
pub open spec fn entries_differ(entries: Seq<(TileLocation, String)>) -> bool {
    forall|i: int, j: int|
        0 <= i < j < entries.len() ==> (#[trigger] entries[i]).0 != (#[trigger] entries[j]).0
}

fn key(at: &TileLocation) -> (k: u32)
    ensures
        k == key_of(*at),
{
    ((at.x as i32 + 32768) as u32) * 65536 + ((at.y as i32 + 32768) as u32)
}

fn tile(k: u32) -> (at: TileLocation)
    ensures
        at == tile_of(k),
{
    TileLocation { x: ((k / 65536) as i32 - 32768) as i16, y: ((k % 65536) as i32 - 32768) as i16 }
}

impl TileMap {
    /// A map without tiles.
    pub fn new() -> (map: TileMap)
        ensures
            map@ == Map::<TileLocation, Seq<char>>::empty(),
    {
        let map = TileMap { cells: HashMap::new() };
        assert(map@ =~= Map::<TileLocation, Seq<char>>::empty());
        map
    }

    /// Whether the map is without tiles.
    pub fn is_empty(&self) -> (empty: bool)
        ensures
            empty == (self@ == Map::<TileLocation, Seq<char>>::empty()),
    {
        let empty = self.cells.is_empty();
        proof {
            if empty {
                assert(self@ =~= Map::<TileLocation, Seq<char>>::empty());
            } else {
                let k = choose|k: u32| self.cells@.contains_key(k);
                lemma_keys(tile_of(k), k);
                assert(self@.contains_key(tile_of(k)));
            }
        }
        empty
    }

    /// The text kept for the tile, if there is one.
    pub fn get(&self, at: &TileLocation) -> (text: Option<&String>)
        ensures
            match text {
                Some(t) => self@.contains_key(*at) && self@[*at] == t@,
                None => !self@.contains_key(*at),
            },
    {
        let k = key(at);
        self.cells.get(&k)
    }

    /// Keeps `text` for the tile, in place of what was kept for it.
    pub fn insert(&mut self, at: TileLocation, text: String)
        ensures
            final(self)@ == old(self)@.insert(at, text@),
    {
        let k = key(&at);
        self.cells.insert(k, text);
        assert(self@ =~= old(self)@.insert(at, text@)) by {
            assert forall|p: TileLocation| key_of(p) == k implies p == at by {
                lemma_keys(p, k);
                lemma_keys(at, k);
            }
        }
    }

    /// Drops what is kept for the tile.
    pub fn remove(&mut self, at: &TileLocation)
        ensures
            final(self)@ == old(self)@.remove(*at),
    {
        let k = key(at);
        self.cells.remove(&k);
        assert(self@ =~= old(self)@.remove(*at)) by {
            assert forall|p: TileLocation| key_of(p) == k implies p == *at by {
                lemma_keys(p, k);
                lemma_keys(*at, k);
            }
        }
    }

    /// The tiles of the map with their texts, each tile once, in no
    /// particular order.
    pub fn entries(&self) -> (entries: Vec<(TileLocation, String)>)
        ensures
            entries_differ(entries@),
            forall|at: TileLocation, text: Seq<char>|
                entries_hold(entries@, at, text) <==> self@.contains_key(at) && self@[at] == text,
    {
        let mut entries: Vec<(TileLocation, String)> = Vec::new();
        for pair in it: self.cells.iter()
            invariant
                it.seq() == spec_hash_map_iter(&self.cells).remaining(),
                it.seq().no_duplicates(),
                entries@.len() == it.index(),
                forall|i: int|
                    0 <= i < entries@.len() ==> (#[trigger] entries@[i]).0 == tile_of(
                        *it.seq()[i].0,
                    ) && entries@[i].1@ == it.seq()[i].1@,
        {
            let (k, text) = pair;
            entries.push((tile(*k), text.clone()));
        }
        proof {
            let listed = spec_hash_map_iter(&self.cells).remaining();
            assert forall|i: int, j: int| 0 <= i < j < entries@.len() implies (
            #[trigger] entries@[i]).0 != (#[trigger] entries@[j]).0 by {
                lemma_keys(entries@[i].0, *listed[i].0);
                lemma_keys(entries@[j].0, *listed[j].0);
                assert(self.cells@.contains_key(*listed[i].0));
                assert(self.cells@.contains_key(*listed[j].0));
                assert(self.cells@[*listed[i].0] == *listed[i].1);
                assert(self.cells@[*listed[j].0] == *listed[j].1);
                if *listed[i].0 == *listed[j].0 {
                    assert(listed[i] == listed[j]);
                }
            }
            assert forall|at: TileLocation, text: Seq<char>|
                entries_hold(entries@, at, text) <==> self@.contains_key(at) && self@[at]
                    == text by {
                if entries_hold(entries@, at, text) {
                    let i = choose|i: int|
                        0 <= i < entries@.len() && (#[trigger] entries@[i]).0 == at
                            && entries@[i].1@ == text;
                    lemma_keys(at, *listed[i].0);
                    assert(self.cells@.contains_key(*listed[i].0));
                    assert(self.cells@[*listed[i].0] == *listed[i].1);
                }
                if self@.contains_key(at) && self@[at] == text {
                    let k = key_of(at);
                    assert(self.cells@.contains_key(k));
                    assert(listed.contains((&k, &self.cells@[k])));
                    let i = choose|i: int|
                        0 <= i < listed.len() && listed[i] == (&k, &self.cells@[k]);
                    lemma_keys(at, k);
                    assert(entries@[i].0 == at);
                }
            }
        }
        entries
    }
}

} // verus!
