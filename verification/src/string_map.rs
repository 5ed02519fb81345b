//! A map from strings to values, kept as a list of entries in which no key
//! occurs twice.

use vstd::prelude::*;

verus! {

/// Whether some entry has the key `key`.
spec fn has_key<V>(entries: Seq<(String, V)>, key: Seq<char>) -> bool {
    exists|i: int| 0 <= i < entries.len() && (#[trigger] entries[i]).0@ == key
}

/// The position of an entry with the key `key`.
spec fn index_of_key<V>(entries: Seq<(String, V)>, key: Seq<char>) -> int {
    choose|i: int| 0 <= i < entries.len() && (#[trigger] entries[i]).0@ == key
}

/// Whether no key occurs twice.
spec fn distinct_keys<V>(entries: Seq<(String, V)>) -> bool {
    forall|i: int, j: int|
        0 <= i < j < entries.len() ==> (#[trigger] entries[i]).0@ != (#[trigger] entries[j]).0@
}

/// The mapping that a list of entries stands for.
spec fn entries_view<V: View>(entries: Seq<(String, V)>) -> Map<Seq<char>, V::V> {
    Map::new(
        |key: Seq<char>| has_key(entries, key),
        |key: Seq<char>| entries[index_of_key(entries, key)].1@,
    )
}

/// With distinct keys, each entry is what the mapping holds under its key.
proof fn lemma_entry_in_view<V: View>(entries: Seq<(String, V)>, i: int)
    requires
        distinct_keys(entries),
        0 <= i < entries.len(),
    ensures
        entries_view(entries).contains_key(entries[i].0@),
        entries_view(entries)[entries[i].0@] == entries[i].1@,
{
    let key = entries[i].0@;
    assert(has_key(entries, key));
    let j = index_of_key(entries, key);
    assert(entries[j].0@ == key);
    if j < i {
        assert(entries[j].0@ != entries[i].0@);
    } else if i < j {
        assert(entries[i].0@ != entries[j].0@);
    }
}

/// Appending an entry under a new key inserts it into the mapping.
proof fn lemma_push_entry<V: View>(entries: Seq<(String, V)>, entry: (String, V))
    requires
        distinct_keys(entries),
        !has_key(entries, entry.0@),
    ensures
        distinct_keys(entries.push(entry)),
        entries_view(entries.push(entry)) == entries_view(entries).insert(entry.0@, entry.1@),
{
    let after = entries.push(entry);
    assert forall|i: int, j: int| 0 <= i < j < after.len() implies (#[trigger] after[i]).0@ != (
    #[trigger] after[j]).0@ by {
        if j < entries.len() {
            assert(entries[i].0@ != entries[j].0@);
        } else {
            assert(entries[i].0@ != entry.0@);
        }
    }
    let expected = entries_view(entries).insert(entry.0@, entry.1@);
    assert forall|key: Seq<char>| has_key(after, key) <==> #[trigger] expected.contains_key(
        key,
    ) by {
        if has_key(after, key) {
            let i = index_of_key(after, key);
            if i < entries.len() {
                assert(entries[i].0@ == key);
            }
        }
        if has_key(entries, key) {
            let i = index_of_key(entries, key);
            assert(after[i].0@ == key);
        }
        if key == entry.0@ {
            assert(after[entries.len() as int].0@ == key);
        }
    }
    assert forall|key: Seq<char>| has_key(after, key) implies #[trigger] entries_view(after)[key]
        == expected[key] by {
        let i = index_of_key(after, key);
        lemma_entry_in_view(after, i);
        if i < entries.len() {
            lemma_entry_in_view(entries, i);
        }
    }
    assert(entries_view(after) =~= expected);
}

/// Replacing the value of an entry inserts the new value under its key.
proof fn lemma_update_entry<V: View>(entries: Seq<(String, V)>, at: int, entry: (String, V))
    requires
        distinct_keys(entries),
        0 <= at < entries.len(),
        entries[at].0@ == entry.0@,
    ensures
        distinct_keys(entries.update(at, entry)),
        entries_view(entries.update(at, entry)) == entries_view(entries).insert(
            entry.0@,
            entry.1@,
        ),
{
    let after = entries.update(at, entry);
    assert forall|i: int, j: int| 0 <= i < j < after.len() implies (#[trigger] after[i]).0@ != (
    #[trigger] after[j]).0@ by {
        assert(entries[i].0@ != entries[j].0@);
    }
    let expected = entries_view(entries).insert(entry.0@, entry.1@);
    assert forall|key: Seq<char>| has_key(after, key) <==> #[trigger] expected.contains_key(
        key,
    ) by {
        if has_key(after, key) {
            let i = index_of_key(after, key);
            assert(entries[i].0@ == key);
        }
        if has_key(entries, key) {
            let i = index_of_key(entries, key);
            assert(after[i].0@ == key);
        }
        if key == entry.0@ {
            assert(after[at].0@ == key);
        }
    }
    assert forall|key: Seq<char>| has_key(after, key) implies #[trigger] entries_view(after)[key]
        == expected[key] by {
        let i = index_of_key(after, key);
        lemma_entry_in_view(after, i);
        lemma_entry_in_view(entries, i);
    }
    assert(entries_view(after) =~= expected);
}

/// Taking an entry out removes its key from the mapping.
proof fn lemma_remove_entry<V: View>(entries: Seq<(String, V)>, at: int)
    requires
        distinct_keys(entries),
        0 <= at < entries.len(),
    ensures
        distinct_keys(entries.remove(at)),
        entries_view(entries.remove(at)) == entries_view(entries).remove(entries[at].0@),
{
    let after = entries.remove(at);
    let gone = entries[at].0@;
    assert forall|i: int, j: int| 0 <= i < j < after.len() implies (#[trigger] after[i]).0@ != (
    #[trigger] after[j]).0@ by {
        let si = if i < at { i } else { i + 1 };
        let sj = if j < at { j } else { j + 1 };
        assert(entries[si].0@ != entries[sj].0@);
    }
    let expected = entries_view(entries).remove(gone);
    assert forall|key: Seq<char>| has_key(after, key) <==> #[trigger] expected.contains_key(
        key,
    ) by {
        if has_key(after, key) {
            let i = index_of_key(after, key);
            let si = if i < at { i } else { i + 1 };
            assert(entries[si].0@ == key);
            if si < at {
                assert(entries[si].0@ != entries[at].0@);
            } else {
                assert(entries[at].0@ != entries[si].0@);
            }
        }
        if has_key(entries, key) && key != gone {
            let i = index_of_key(entries, key);
            let ai = if i < at { i } else { i - 1 };
            assert(after[ai].0@ == key);
        }
    }
    assert forall|key: Seq<char>| has_key(after, key) implies #[trigger] entries_view(after)[key]
        == expected[key] by {
        let i = index_of_key(after, key);
        let si = if i < at { i } else { i + 1 };
        lemma_entry_in_view(after, i);
        lemma_entry_in_view(entries, si);
    }
    assert(entries_view(after) =~= expected);
}

/// With distinct keys, the mapping has as many keys as there are entries.
proof fn lemma_entries_len<V: View>(entries: Seq<(String, V)>)
    requires
        distinct_keys(entries),
    ensures
        entries_view(entries).dom().finite(),
        entries_view(entries).dom().len() == entries.len(),
    decreases entries.len(),
{
    if entries.len() == 0 {
        assert(entries_view(entries).dom() =~= Set::<Seq<char>>::empty());
    } else {
        let front = entries.drop_last();
        let last = entries.last();
        assert forall|i: int, j: int| 0 <= i < j < front.len() implies (#[trigger] front[i]).0@ != (
        #[trigger] front[j]).0@ by {
            assert(entries[i].0@ != entries[j].0@);
        }
        if has_key(front, last.0@) {
            let i = index_of_key(front, last.0@);
            assert(entries[i].0@ != entries[entries.len() - 1].0@);
        }
        lemma_entries_len(front);
        lemma_push_entry(front, last);
        assert(front.push(last) =~= entries);
        assert(entries_view(entries).dom() =~= entries_view(front).dom().insert(last.0@));
    }
}

/// Two finite mappings with as many keys each are the same if the second
/// holds every key of the first, with the same value.
proof fn lemma_same_mapping<V>(first: Map<Seq<char>, V>, second: Map<Seq<char>, V>)
    requires
        first.dom().finite(),
        second.dom().finite(),
        first.len() == second.len(),
        forall|key: Seq<char>| #[trigger]
            first.contains_key(key) ==> second.contains_key(key) && second[key] == first[key],
    ensures
        first == second,
{
    assert(first.dom().subset_of(second.dom())) by {
        assert forall|key: Seq<char>| first.dom().contains(key) implies second.dom().contains(
            key,
        ) by {
            assert(first.contains_key(key));
        }
    }
    vstd::set_lib::lemma_subset_equality(first.dom(), second.dom());
    assert(first =~= second);
}

/// A map from strings to values.
#[derive(Debug)]
pub struct StringMap<V> {
    entries: Vec<(String, V)>,
}

impl<V: View> View for StringMap<V> {
    type V = Map<Seq<char>, V::V>;

    closed spec fn view(&self) -> Map<Seq<char>, V::V> {
        entries_view(self.entries@)
    }
}

impl<V> StringMap<V> {
    #[verifier::type_invariant]
    spec fn keys_are_distinct(self) -> bool {
        distinct_keys(self.entries@)
    }
}

impl<V: View> StringMap<V> {
    /// The position of the entry under `key`, if there is one.
    fn position(&self, key: &str) -> (at: Option<usize>)
        ensures
            match at {
                Some(i) => i < self.entries@.len() && self.entries@[i as int].0@ == key@,
                None => !has_key(self.entries@, key@),
            },
    {
        let wanted: String = key.to_owned();
        let mut i: usize = 0;
        while i < self.entries.len()
            invariant
                i <= self.entries@.len(),
                wanted@ == key@,
                forall|j: int| 0 <= j < i ==> (#[trigger] self.entries@[j]).0@ != key@,
            decreases self.entries.len() - i,
        {
            if self.entries[i].0 == wanted {
                return Some(i);
            }
            i += 1;
        }
        None
    }

    /// The empty map.
    pub fn new() -> (map: Self)
        ensures
            map@ == Map::<Seq<char>, V::V>::empty(),
    {
        let map = StringMap { entries: Vec::new() };
        assert(map@ =~= Map::<Seq<char>, V::V>::empty());
        map
    }

    /// The number of keys.
    pub fn len(&self) -> (len: usize)
        ensures
            self@.dom().finite(),
            len == self@.len(),
    {
        proof {
            use_type_invariant(self);
            lemma_entries_len(self.entries@);
        }
        self.entries.len()
    }

    /// Whether the map holds no key.
    pub fn is_empty(&self) -> (empty: bool)
        ensures
            empty == (self@ == Map::<Seq<char>, V::V>::empty()),
    {
        proof {
            if self.entries@.len() == 0 {
                assert(self@ =~= Map::<Seq<char>, V::V>::empty());
            } else {
                assert(has_key(self.entries@, self.entries@[0].0@));
                assert(self@.contains_key(self.entries@[0].0@));
            }
        }
        self.entries.len() == 0
    }

    /// Whether the map holds `key`.
    pub fn contains_key(&self, key: &str) -> (found: bool)
        ensures
            found == self@.contains_key(key@),
    {
        self.position(key).is_some()
    }

    /// The value under `key`.
    pub fn get(&self, key: &str) -> (value: Option<&V>)
        ensures
            match value {
                Some(v) => self@.contains_key(key@) && v@ == self@[key@],
                None => !self@.contains_key(key@),
            },
    {
        match self.position(key) {
            Some(i) => {
                proof {
                    use_type_invariant(self);
                    lemma_entry_in_view(self.entries@, i as int);
                }
                Some(&self.entries[i].1)
            },
            None => None,
        }
    }

    /// Puts `value` under `key`, in place of what was there.
    pub fn insert(&mut self, key: String, value: V)
        ensures
            final(self)@ == old(self)@.insert(key@, value@),
    {
        proof {
            use_type_invariant(&*self);
        }
        let at = self.position(key.as_str());
        let mut entries: Vec<(String, V)> = Vec::new();
        std::mem::swap(&mut entries, &mut self.entries);
        match at {
            Some(i) => {
                proof {
                    lemma_update_entry(entries@, i as int, (key, value));
                }
                entries.set(i, (key, value));
            },
            None => {
                proof {
                    lemma_push_entry(entries@, (key, value));
                }
                entries.push((key, value));
            },
        }
        self.entries = entries;
    }

    /// Takes out what stands under `key`.
    pub fn remove(&mut self, key: &str) -> (value: Option<V>)
        ensures
            final(self)@ == old(self)@.remove(key@),
            match value {
                Some(v) => old(self)@.contains_key(key@) && v@ == old(self)@[key@],
                None => !old(self)@.contains_key(key@),
            },
    {
        proof {
            use_type_invariant(&*self);
        }
        match self.position(key) {
            Some(i) => {
                let mut entries: Vec<(String, V)> = Vec::new();
                std::mem::swap(&mut entries, &mut self.entries);
                proof {
                    lemma_entry_in_view(entries@, i as int);
                    lemma_remove_entry(entries@, i as int);
                }
                let entry = entries.remove(i);
                self.entries = entries;
                Some(entry.1)
            },
            None => {
                assert(self@.remove(key@) =~= self@);
                None
            },
        }
    }

    /// The keys, each once.
    pub fn keys(&self) -> (keys: Vec<&String>)
        ensures
            keys.deep_view().no_duplicates(),
            keys.deep_view().to_set() == self@.dom(),
            keys@.len() == self@.len(),
    {
        proof {
            use_type_invariant(self);
            lemma_entries_len(self.entries@);
        }
        let mut keys: Vec<&String> = Vec::new();
        let mut i: usize = 0;
        while i < self.entries.len()
            invariant
                i <= self.entries@.len(),
                keys@.len() == i,
                forall|j: int| 0 <= j < i ==> *(#[trigger] keys@[j]) == self.entries@[j].0,
            decreases self.entries.len() - i,
        {
            keys.push(&self.entries[i].0);
            i += 1;
        }
        proof {
            let names = keys.deep_view();
            assert forall|j: int| 0 <= j < names.len() implies #[trigger] names[j]
                == self.entries@[j].0@ by {
                assert(names[j] == keys@[j]@);
            }
            assert forall|a: int, b: int| 0 <= a < names.len() && 0 <= b < names.len() && a
                != b implies names[a] != names[b] by {
                if a < b {
                    assert(self.entries@[a].0@ != self.entries@[b].0@);
                } else {
                    assert(self.entries@[b].0@ != self.entries@[a].0@);
                }
            }
            assert forall|key: Seq<char>| names.to_set().contains(key) <==> self@.dom().contains(
                key,
            ) by {
                if names.contains(key) {
                    let j = choose|j: int| 0 <= j < names.len() && names[j] == key;
                    assert(self.entries@[j].0@ == key);
                }
                if has_key(self.entries@, key) {
                    let j = index_of_key(self.entries@, key);
                    assert(names[j] == key);
                }
            }
            assert(names.to_set() =~= self@.dom());
        }
        keys
    }
}

/// Values that can be told apart by what they stand for.
pub trait SameAs: View {
    /// Whether `self` and `other` stand for the same.
    fn same_as(&self, other: &Self) -> (same: bool)
        ensures
            same == (self@ == other@),
    ;
}

impl SameAs for String {
    fn same_as(&self, other: &Self) -> (same: bool) {
        *self == *other
    }
}

impl<V: SameAs> SameAs for StringMap<V> {
    /// Whether both maps hold the same keys, each with the same value.
    fn same_as(&self, other: &Self) -> (same: bool) {
        if self.len() != other.len() {
            return false;
        }
        let keys = self.keys();
        let ghost names = keys.deep_view();
        let mut i: usize = 0;
        while i < keys.len()
            invariant
                i <= keys@.len(),
                names == keys.deep_view(),
                names.to_set() == self@.dom(),
                forall|j: int|
                    0 <= j < i ==> other@.contains_key(#[trigger] names[j]) && other@[names[j]]
                        == self@[names[j]],
            decreases keys.len() - i,
        {
            let key = keys[i].as_str();
            assert(names[i as int] == key@);
            assert(names.to_set().contains(key@));
            match (self.get(key), other.get(key)) {
                (Some(mine), Some(theirs)) => {
                    if !mine.same_as(theirs) {
                        return false;
                    }
                },
                _ => {
                    return false;
                },
            }
            i += 1;
        }
        proof {
            assert forall|key: Seq<char>| #[trigger]
                self@.contains_key(key) implies other@.contains_key(key) && other@[key]
                == self@[key] by {
                assert(names.to_set().contains(key));
                let j = choose|j: int| 0 <= j < names.len() && names[j] == key;
                assert(other@.contains_key(names[j]));
            }
            lemma_same_mapping(self@, other@);
        }
        true
    }
}

} // verus!
