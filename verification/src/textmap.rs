//! Maps from texts to texts.
use vstd::prelude::*;

use crate::text;

verus! {

/// A map from texts to texts.
#[derive(Debug)]
pub struct TextMap {
    entries: Vec<(String, String)>,
}

closed spec fn entry_map(entries: Seq<(String, String)>) -> Map<Seq<char>, Seq<char>>
    decreases entries.len(),
{
    if entries.len() == 0 {
        Map::empty()
    } else {
        entry_map(entries.drop_last()).insert(entries.last().0@, entries.last().1@)
    }
}

impl View for TextMap {
    type V = Map<Seq<char>, Seq<char>>;

    closed spec fn view(&self) -> Map<Seq<char>, Seq<char>> {
        entry_map(self.entries@)
    }
}

/// The value of a key, if it has one.
pub open spec fn lookup(m: Map<Seq<char>, Seq<char>>, key: Seq<char>) -> Option<Seq<char>> {
    if m.dom().contains(key) {
        Some(m[key])
    } else {
        None
    }
}

impl TextMap {
    /// The map without keys.
    pub fn new() -> (r: TextMap)
        ensures
            r@ == Map::<Seq<char>, Seq<char>>::empty(),
    {
        TextMap { entries: Vec::new() }
    }

    /// Gives the key a value.
    pub fn insert(&mut self, key: &str, value: &str)
        ensures
            final(self)@ == old(self)@.insert(key@, value@),
    {
        let ghost before = self.entries@;
        self.entries.push((key.to_string(), value.to_string()));
        assert(self.entries@.drop_last() =~= before);
    }

    /// The value of the key.
    pub fn get(&self, key: &str) -> (r: Option<String>)
        ensures
            text::opt(r) == lookup(self@, key@),
    {
        let ghost all = self.entries@;
        let mut i: usize = self.entries.len();
        assert(all.take(i as int) =~= all);
        while i > 0
            invariant
                i <= all.len(),
                all == self.entries@,
                lookup(self@, key@) == lookup(entry_map(all.take(i as int)), key@),
            decreases i,
        {
            let ghost seen = all.take(i as int);
            assert(seen.drop_last() =~= all.take(i - 1));
            assert(seen.last() == all[i - 1]);
            i -= 1;
            if text::same(self.entries[i].0.as_str(), key) {
                return Some(self.entries[i].1.clone());
            }
        }
        assert(all.take(0) =~= seq![]);
        None
    }

    /// Takes the key out.
    pub fn remove(&mut self, key: &str)
        ensures
            final(self)@ == old(self)@.remove(key@),
    {
        let ghost all = self.entries@;
        let mut kept: Vec<(String, String)> = Vec::new();
        let mut i: usize = 0;
        assert(all.take(0) =~= seq![]);
        assert(entry_map(kept@) =~= entry_map(all.take(0)).remove(key@));
        while i < self.entries.len()
            invariant
                i <= all.len(),
                all == self.entries@,
                all == old(self).entries@,
                entry_map(kept@) == entry_map(all.take(i as int)).remove(key@),
            decreases all.len() - i,
        {
            assert(all.take(i + 1).drop_last() =~= all.take(i as int));
            if !text::same(self.entries[i].0.as_str(), key) {
                let ghost before = kept@;
                kept.push((self.entries[i].0.clone(), self.entries[i].1.clone()));
                assert(kept@.drop_last() =~= before);
            }
            i += 1;
            assert(entry_map(kept@) =~= entry_map(all.take(i as int)).remove(key@));
        }
        assert(all.take(i as int) =~= all);
        self.entries = kept;
    }
}

} // verus!
