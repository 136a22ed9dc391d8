//! A small table from text keys to values, kept as a list of entries.

use vstd::prelude::*;

verus! {

/// The map that a list of entries lays out: a later entry under a key
/// replaces an earlier one.
pub open spec fn laid<V>(items: Seq<(String, V)>) -> Map<Seq<char>, V>
    decreases items.len(),
{
    if items.len() == 0 {
        Map::empty()
    } else {
        laid(items.drop_last()).insert(items.last().0@, items.last().1)
    }
}

/// A key that no entry carries is not in the map.
pub proof fn lemma_absent<V>(items: Seq<(String, V)>, key: Seq<char>)
    requires
        forall|j: int| 0 <= j < items.len() ==> (#[trigger] items[j]).0@ != key,
    ensures
        !laid(items).contains_key(key),
    decreases items.len(),
{
    if items.len() > 0 {
        assert(items.last() == items[items.len() - 1]);
        assert forall|j: int| 0 <= j < items.drop_last().len() implies (
        #[trigger] items.drop_last()[j]).0@ != key by {
            assert(items.drop_last()[j] == items[j]);
        }
        lemma_absent(items.drop_last(), key);
    }
}

/// Taking out one entry under `key` changes nothing of the map but what it
/// holds under `key`.
pub proof fn lemma_without_entry<V>(items: Seq<(String, V)>, i: int, key: Seq<char>)
    requires
        0 <= i < items.len(),
        items[i].0@ == key,
    ensures
        laid(items.remove(i)).remove(key) == laid(items).remove(key),
    decreases items.len(),
{
    let fewer = items.remove(i);
    if i == items.len() - 1 {
        assert(fewer =~= items.drop_last());
        assert(laid(items).remove(key) =~= laid(items.drop_last()).remove(key));
    } else {
        let front = items.drop_last();
        assert(fewer.drop_last() =~= front.remove(i));
        assert(fewer.last() == items.last());
        assert(front[i] == items[i]);
        lemma_without_entry(front, i, key);
        assert(laid(fewer).remove(key) =~= laid(front.remove(i)).remove(key).insert(
            items.last().0@,
            items.last().1,
        ).remove(key));
        assert(laid(items).remove(key) =~= laid(front).remove(key).insert(
            items.last().0@,
            items.last().1,
        ).remove(key));
    }
}

/// A table from text keys to values.
pub struct Table<V> {
    items: Vec<(String, V)>,
}

impl<V> Table<V> {
    /// What the table holds.
    pub closed spec fn map(&self) -> Map<Seq<char>, V> {
        laid(self.items@)
    }

    /// The table with nothing in it.
    pub fn new() -> (table: Self)
        ensures
            table.map() == Map::<Seq<char>, V>::empty(),
    {
        Table { items: Vec::new() }
    }

    /// The value under `key`, if there is one.
    pub fn get(&self, key: &String) -> (found: Option<&V>)
        ensures
            match found {
                Some(value) => self.map().contains_key(key@) && self.map()[key@] == *value,
                None => !self.map().contains_key(key@),
            },
    {
        let mut i = self.items.len();
        assert(self.items@.take(i as int) =~= self.items@);
        while i > 0
            invariant
                i <= self.items.len(),
                self.map().contains_key(key@) == laid(self.items@.take(i as int)).contains_key(
                    key@,
                ),
                self.map().contains_key(key@) ==> self.map()[key@] == laid(
                    self.items@.take(i as int),
                )[key@],
            decreases i,
        {
            proof {
                let part = self.items@.take(i as int);
                assert(part.drop_last() =~= self.items@.take(i - 1));
                assert(part.last() == self.items@[i - 1]);
            }
            i = i - 1;
            if self.items[i].0 == *key {
                return Some(&self.items[i].1);
            }
        }
        None
    }

    /// Takes out whatever is under `key`.
    pub fn remove(&mut self, key: &String)
        ensures
            final(self).map() == old(self).map().remove(key@),
    {
        let ghost before = self.items@;
        let mut i: usize = 0;
        while i < self.items.len()
            invariant
                i <= self.items.len(),
                forall|j: int| 0 <= j < i ==> (#[trigger] self.items@[j]).0@ != key@,
                laid(self.items@).remove(key@) == laid(before).remove(key@),
            decreases self.items.len() - i,
        {
            if self.items[i].0 == *key {
                proof {
                    lemma_without_entry(self.items@, i as int, key@);
                }
                let _ = self.items.remove(i);
            } else {
                i = i + 1;
            }
        }
        proof {
            lemma_absent(self.items@, key@);
            assert(laid(self.items@).remove(key@) =~= laid(self.items@));
        }
    }

    /// Puts `value` under `key`, in place of whatever was there.
    pub fn put(&mut self, key: String, value: V)
        ensures
            final(self).map() == old(self).map().insert(key@, value),
    {
        self.remove(&key);
        let ghost cleared = self.items@;
        self.items.push((key, value));
        proof {
            assert(self.items@.drop_last() =~= cleared);
            assert(laid(cleared).insert(key@, value) =~= old(self).map().insert(key@, value));
        }
    }
}

} // verus!
