//! A small map from texts to values, kept as a list in which no key occurs twice.
use vstd::prelude::*;

use crate::text;

verus! {

/// One key and its value.
struct Entry<T> {
    key: String,
    value: T,
}

/// Values by their keys.
pub struct Registry<T> {
    entries: Vec<Entry<T>>,
}

/// No key occurs twice.
spec fn distinct<T>(entries: Seq<Entry<T>>) -> bool {
    forall|i: int, j: int|
        0 <= i < j < entries.len() ==> #[trigger] entries[i].key@ != #[trigger] entries[j].key@
}

/// The map that a list of entries stands for.
spec fn map_of<T>(entries: Seq<Entry<T>>) -> Map<Seq<char>, T>
    decreases entries.len(),
{
    if entries.len() == 0 {
        Map::empty()
    } else {
        map_of(entries.drop_last()).insert(entries.last().key@, entries.last().value)
    }
}

proof fn lemma_map_of<T>(entries: Seq<Entry<T>>)
    requires
        distinct(entries),
    ensures
        map_of(entries).dom().finite(),
        map_of(entries).dom().len() == entries.len(),
        forall|i: int|
            #![trigger entries[i]]
            0 <= i < entries.len() ==> {
                &&& map_of(entries).dom().contains(entries[i].key@)
                &&& map_of(entries)[entries[i].key@] == entries[i].value
            },
        forall|k: Seq<char>| #[trigger]
            map_of(entries).dom().contains(k) ==> exists|i: int|
                0 <= i < entries.len() && (#[trigger] entries[i]).key@ == k,
    decreases entries.len(),
{
    if entries.len() > 0 {
        let rest = entries.drop_last();
        let last = entries.len() - 1;
        assert forall|i: int, j: int| 0 <= i < j < rest.len() implies #[trigger] rest[i].key@
            != #[trigger] rest[j].key@ by {
            assert(rest[i] == entries[i] && rest[j] == entries[j]);
        }
        lemma_map_of(rest);
        assert(!map_of(rest).dom().contains(entries[last].key@)) by {
            if map_of(rest).dom().contains(entries[last].key@) {
                let i = choose|i: int|
                    0 <= i < rest.len() && (#[trigger] rest[i]).key@ == entries[last].key@;
                assert(rest[i] == entries[i]);
            }
        }
        assert forall|i: int|
            #![trigger entries[i]]
            0 <= i < entries.len() implies map_of(entries).dom().contains(entries[i].key@)
            && map_of(entries)[entries[i].key@] == entries[i].value by {
            if i < last {
                assert(rest[i] == entries[i]);
            }
        }
        assert forall|k: Seq<char>| #[trigger] map_of(entries).dom().contains(k) implies exists|i:
            int| 0 <= i < entries.len() && (#[trigger] entries[i]).key@ == k by {
            if k == entries[last].key@ {
                assert(entries[last].key@ == k);
            } else {
                assert(map_of(rest).dom().contains(k));
                let i = choose|i: int| 0 <= i < rest.len() && (#[trigger] rest[i]).key@ == k;
                assert(entries[i] == rest[i]);
            }
        }
    }
}

impl<T> View for Registry<T> {
    type V = Map<Seq<char>, T>;

    closed spec fn view(&self) -> Map<Seq<char>, T> {
        map_of(self.entries@)
    }
}

impl<T> Registry<T> {
    /// Every key occurs once.
    pub closed spec fn wf(&self) -> bool {
        distinct(self.entries@)
    }

    /// The empty registry.
    pub fn new() -> (registry: Self)
        ensures
            registry.wf(),
            registry@ == Map::<Seq<char>, T>::empty(),
    {
        Registry { entries: Vec::new() }
    }

    /// How many keys there are.
    pub fn len(&self) -> (length: usize)
        requires
            self.wf(),
        ensures
            self@.dom().finite(),
            length == self@.dom().len(),
    {
        proof {
            lemma_map_of(self.entries@);
        }
        self.entries.len()
    }

    /// The index of a key, or the number of entries.
    fn position(&self, key: &str) -> (index: usize)
        requires
            self.wf(),
        ensures
            index <= self.entries@.len(),
            index < self.entries@.len() ==> {
                &&& self.entries@[index as int].key@ == key@
                &&& self@.dom().contains(key@)
                &&& self@[key@] == self.entries@[index as int].value
            },
            index == self.entries@.len() ==> !self@.dom().contains(key@),
    {
        proof {
            lemma_map_of(self.entries@);
        }
        let mut i: usize = 0;
        while i < self.entries.len()
            invariant
                i <= self.entries@.len(),
                forall|j: int| 0 <= j < i ==> (#[trigger] self.entries@[j]).key@ != key@,
            ensures
                i <= self.entries@.len(),
                i < self.entries@.len() ==> self.entries@[i as int].key@ == key@,
                i == self.entries@.len() ==> forall|j: int|
                    0 <= j < i ==> (#[trigger] self.entries@[j]).key@ != key@,
            decreases self.entries@.len() - i,
        {
            if text::same_text(self.entries[i].key.as_str(), key) {
                break;
            }
            i += 1;
        }
        i
    }

    /// Whether a key is there.
    pub fn contains(&self, key: &str) -> (there: bool)
        requires
            self.wf(),
        ensures
            there == self@.dom().contains(key@),
    {
        self.position(key) < self.entries.len()
    }

    /// The value of a key.
    pub fn get(&self, key: &str) -> (value: Option<&T>)
        requires
            self.wf(),
        ensures
            match value {
                Some(value) => self@.dom().contains(key@) && *value == self@[key@],
                None => !self@.dom().contains(key@),
            },
    {
        let i: usize = self.position(key);
        if i < self.entries.len() {
            Some(&self.entries[i].value)
        } else {
            None
        }
    }

    /// Takes a key out, with its value.
    pub fn remove(&mut self, key: &str) -> (value: Option<T>)
        requires
            old(self).wf(),
        ensures
            final(self).wf(),
            final(self)@ == old(self)@.remove(key@),
            match value {
                Some(value) => old(self)@.dom().contains(key@) && value == old(self)@[key@],
                None => !old(self)@.dom().contains(key@),
            },
    {
        let i: usize = self.position(key);
        proof {
            lemma_map_of(self.entries@);
        }
        if i < self.entries.len() {
            let ghost before = self.entries@;
            let entry = self.entries.remove(i);
            proof {
                let after = self.entries@;
                assert(after =~= before.remove(i as int));
                assert forall|a: int, b: int| 0 <= a < b < after.len() implies #[trigger] after[a].key@
                    != #[trigger] after[b].key@ by {
                    let a0 = if a < i { a } else { a + 1 };
                    let b0 = if b < i { b } else { b + 1 };
                    assert(after[a] == before[a0] && after[b] == before[b0]);
                }
                lemma_map_of(after);
                assert forall|k: Seq<char>| #[trigger] map_of(after).dom().contains(k) <==> map_of(
                    before,
                ).remove(key@).dom().contains(k) by {
                    if map_of(after).dom().contains(k) {
                        let a = choose|a: int| 0 <= a < after.len() && (#[trigger] after[a]).key@ == k;
                        let a0 = if a < i { a } else { a + 1 };
                        assert(after[a] == before[a0]);
                        assert(before[a0].key@ != before[i as int].key@);
                    }
                    if map_of(before).remove(key@).dom().contains(k) {
                        assert(map_of(before).dom().contains(k));
                        let b = choose|b: int| 0 <= b < before.len() && (#[trigger] before[b]).key@ == k;
                        let b0 = if b < i { b } else { b - 1 };
                        assert(after[b0] == before[b]);
                    }
                }
                assert forall|k: Seq<char>| #[trigger] map_of(after).dom().contains(k) implies map_of(
                    after,
                )[k] == map_of(before).remove(key@)[k] by {
                    let a = choose|a: int| 0 <= a < after.len() && (#[trigger] after[a]).key@ == k;
                    let a0 = if a < i { a } else { a + 1 };
                    assert(after[a] == before[a0]);
                }
                assert(map_of(after) =~= map_of(before).remove(key@));
            }
            Some(entry.value)
        } else {
            proof {
                assert(self@ =~= old(self)@.remove(key@));
            }
            None
        }
    }

    /// Gives a key a value, and hands back the value that it had.
    pub fn insert(&mut self, key: String, value: T) -> (previous: Option<T>)
        requires
            old(self).wf(),
        ensures
            final(self).wf(),
            final(self)@ == old(self)@.insert(key@, value),
            match previous {
                Some(previous) => old(self)@.dom().contains(key@) && previous == old(self)@[key@],
                None => !old(self)@.dom().contains(key@),
            },
    {
        let previous = self.remove(key.as_str());
        let ghost before = self.entries@;
        let ghost k = key@;
        proof {
            lemma_map_of(before);
        }
        self.entries.push(Entry { key, value });
        proof {
            let after = self.entries@;
            assert(after.drop_last() =~= before);
            assert forall|a: int, b: int| 0 <= a < b < after.len() implies #[trigger] after[a].key@
                != #[trigger] after[b].key@ by {
                if b == before.len() {
                    assert(before[a] == after[a]);
                    if after[a].key@ == k {
                        assert(map_of(before).dom().contains(before[a].key@));
                    }
                } else {
                    assert(after[a] == before[a] && after[b] == before[b]);
                }
            }
            assert(map_of(after) =~= old(self)@.insert(k, value));
        }
        previous
    }

    /// Every key, each once.
    pub fn keys(&self) -> (keys: Vec<String>)
        requires
            self.wf(),
        ensures
            forall|i: int, j: int| 0 <= i < j < keys@.len() ==> #[trigger] keys@[i]@ != #[trigger] keys@[j]@,
            forall|i: int| 0 <= i < keys@.len() ==> self@.dom().contains(#[trigger] keys@[i]@),
            forall|k: Seq<char>| #[trigger]
                self@.dom().contains(k) ==> exists|i: int| 0 <= i < keys@.len() && #[trigger] keys@[i]@ == k,
            keys@.len() == self@.dom().len(),
    {
        proof {
            lemma_map_of(self.entries@);
        }
        let mut keys: Vec<String> = Vec::new();
        let mut i: usize = 0;
        while i < self.entries.len()
            invariant
                i <= self.entries@.len(),
                keys@.len() == i,
                forall|j: int| 0 <= j < i ==> #[trigger] keys@[j]@ == self.entries@[j].key@,
            decreases self.entries@.len() - i,
        {
            keys.push(self.entries[i].key.clone());
            i += 1;
        }
        proof {
            assert forall|a: int, b: int| 0 <= a < b < keys@.len() implies #[trigger] keys@[a]@
                != #[trigger] keys@[b]@ by {
                assert(self.entries@[a].key@ != self.entries@[b].key@);
            }
            assert forall|k: Seq<char>| #[trigger] self@.dom().contains(k) implies exists|a: int|
                0 <= a < keys@.len() && #[trigger] keys@[a]@ == k by {
                let a = choose|a: int|
                    0 <= a < self.entries@.len() && (#[trigger] self.entries@[a]).key@ == k;
                assert(keys@[a]@ == k);
            }
        }
        keys
    }
}

} // verus!
