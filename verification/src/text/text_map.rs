//! A small map from texts to values, in insertion order.

use vstd::prelude::*;

use super::chars::same_text;

verus! {

/// A map from texts to values that are copied.
#[derive(Debug)]
pub struct TextMap<V> {
    entries: Vec<(String, V)>,
}

/// The map that entries make up, later ones taking the place of earlier ones.
pub open spec fn map_of<V>(entries: Seq<(String, V)>) -> Map<Seq<char>, V>
    decreases entries.len(),
{
    if entries.len() == 0 {
        Map::empty()
    } else {
        map_of(entries.drop_last()).insert(entries.last().0@, entries.last().1)
    }
}

impl<V> View for TextMap<V> {
    type V = Map<Seq<char>, V>;

    closed spec fn view(&self) -> Map<Seq<char>, V> {
        map_of(self.entries@)
    }
}

impl<V: Copy> TextMap<V> {
    /// An empty map.
    pub fn new() -> (map: Self)
        ensures
            map@ == Map::<Seq<char>, V>::empty(),
    {
        TextMap { entries: Vec::new() }
    }

    /// The value of a text.
    pub fn get(&self, key: &str) -> (value: Option<V>)
        ensures
            value == (if self@.dom().contains(key@) {
                Some(self@[key@])
            } else {
                None
            }),
    {
        let ghost all = self.entries@;
        let mut i: usize = self.entries.len();
        assert(all.take(all.len() as int) =~= all);
        while i > 0
            invariant
                all == self.entries@,
                i <= self.entries.len(),
                map_of(all).dom().contains(key@) == map_of(all.take(i as int)).dom().contains(key@),
                map_of(all).dom().contains(key@) ==> map_of(all)[key@] == map_of(
                    all.take(i as int),
                )[key@],
            decreases i,
        {
            assert(all.take(i as int).drop_last() =~= all.take(i - 1));
            if same_text(self.entries[i - 1].0.as_str(), key) {
                return Some(self.entries[i - 1].1);
            }
            i = i - 1;
        }
        None
    }

    /// Forgets a text.
    pub fn remove(&mut self, key: &str)
        ensures
            final(self)@ == old(self)@.remove(key@),
    {
        let ghost all = self.entries@;
        let mut kept: Vec<(String, V)> = Vec::new();
        let mut i: usize = 0;
        assert(map_of(kept@) =~= map_of(all.take(0)).remove(key@));
        while i < self.entries.len()
            invariant
                all == self.entries@,
                i <= self.entries.len(),
                map_of(kept@) == map_of(all.take(i as int)).remove(key@),
            decreases self.entries.len() - i,
        {
            assert(all.take(i + 1).drop_last() =~= all.take(i as int));
            let ghost before = map_of(all.take(i as int));
            let ghost entry = all[i as int];
            if !same_text(self.entries[i].0.as_str(), key) {
                let name = self.entries[i].0.clone();
                let value = self.entries[i].1;
                assert(kept@.push((name, value)).drop_last() =~= kept@);
                kept.push((name, value));
                assert(before.remove(key@).insert(entry.0@, entry.1) =~= before.insert(
                    entry.0@,
                    entry.1,
                ).remove(key@));
            } else {
                assert(before.insert(entry.0@, entry.1).remove(key@) =~= before.remove(key@));
            }
            i = i + 1;
        }
        assert(all.take(all.len() as int) =~= all);
        self.entries = kept;
    }

    /// Gives a text a value, in place of the one it had.
    pub fn insert(&mut self, key: String, value: V)
        ensures
            final(self)@ == old(self)@.insert(key@, value),
    {
        self.remove(key.as_str());
        let ghost before = self.entries@;
        self.entries.push((key, value));
        assert(self.entries@.drop_last() =~= before);
        assert(self@ =~= old(self)@.insert(key@, value));
    }
}

} // verus!
