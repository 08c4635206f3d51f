//! Tables that are looked up by texts.

use crate::text::same_text;
use vstd::prelude::*;

verus! {

/// What entries can be looked up by.
pub trait TableKey: DeepView + Sized {
    /// Whether two keys are the same.
    fn same_key(&self, other: &Self) -> (same: bool)
        ensures
            same == (self.deep_view() == other.deep_view()),
    ;

    /// A second copy of a key.
    fn copy_key(&self) -> (r: Self)
        ensures
            r.deep_view() == self.deep_view(),
    ;
}

impl TableKey for String {
    fn same_key(&self, other: &Self) -> (same: bool) {
        same_text(self.as_str(), other.as_str())
    }

    fn copy_key(&self) -> (r: Self) {
        self.clone()
    }
}

/// A table of values that are looked up by keys.
#[derive(Debug, PartialEq, Eq)]
pub struct Table<K, V> {
    entries: Vec<(K, V)>,
}

/// The table that a list of entries makes, of which the first with a key counts.
pub open spec fn table_of<K, V>(entries: Seq<(K, V)>) -> Map<K, V>
    decreases entries.len(),
{
    if entries.len() == 0 {
        Map::empty()
    } else {
        table_of(entries.drop_first()).insert(entries[0].0, entries[0].1)
    }
}

impl<K: TableKey, V: DeepView> DeepView for Table<K, V> {
    type V = Map<K::V, V::V>;

    closed spec fn deep_view(&self) -> Map<K::V, V::V> {
        table_of(self.entries.deep_view())
    }
}

proof fn lemma_table_dom<K, V>(entries: Seq<(K, V)>, key: K)
    ensures
        table_of(entries).dom().contains(key) <==> exists|i: int|
            0 <= i < entries.len() && (#[trigger] entries[i]).0 == key,
    decreases entries.len(),
{
    if entries.len() > 0 {
        let rest = entries.drop_first();
        lemma_table_dom(rest, key);
        if entries[0].0 != key {
            if exists|i: int| 0 <= i < entries.len() && (#[trigger] entries[i]).0 == key {
                let i = choose|i: int| 0 <= i < entries.len() && (#[trigger] entries[i]).0 == key;
                assert(rest[i - 1].0 == key);
            }
            if exists|i: int| 0 <= i < rest.len() && (#[trigger] rest[i]).0 == key {
                let i = choose|i: int| 0 <= i < rest.len() && (#[trigger] rest[i]).0 == key;
                assert(entries[i + 1].0 == key);
            }
        }
    }
}

proof fn lemma_table_first<K, V>(entries: Seq<(K, V)>, i: int)
    requires
        0 <= i < entries.len(),
        forall|j: int| 0 <= j < i ==> (#[trigger] entries[j]).0 != entries[i].0,
    ensures
        table_of(entries).dom().contains(entries[i].0),
        table_of(entries)[entries[i].0] == entries[i].1,
    decreases entries.len(),
{
    if i > 0 {
        let rest = entries.drop_first();
        assert forall|j: int| 0 <= j < i - 1 implies (#[trigger] rest[j]).0 != rest[i - 1].0 by {
            assert(entries[j + 1].0 != entries[i].0);
        }
        lemma_table_first(rest, i - 1);
        assert(entries[0].0 != entries[i].0);
    }
}

proof fn lemma_table_remove<K, V>(entries: Seq<(K, V)>, i: int)
    requires
        0 <= i < entries.len(),
    ensures
        table_of(entries.remove(i)).remove(entries[i].0) == table_of(entries).remove(entries[i].0),
    decreases entries.len(),
{
    let key = entries[i].0;
    if i == 0 {
        assert(entries.remove(0) =~= entries.drop_first());
        assert(table_of(entries.remove(0)).remove(key) =~= table_of(entries).remove(key));
    } else {
        let rest = entries.drop_first();
        lemma_table_remove(rest, i - 1);
        assert(entries.remove(i).drop_first() =~= rest.remove(i - 1));
        assert(entries.remove(i)[0] == entries[0]);
        assert(table_of(entries.remove(i)).remove(key) =~= table_of(entries).remove(key)) by {
            if entries[0].0 == key {
                assert(table_of(rest.remove(i - 1)).insert(key, entries[0].1).remove(key)
                    =~= table_of(rest.remove(i - 1)).remove(key));
                assert(table_of(rest).insert(key, entries[0].1).remove(key) =~= table_of(
                    rest,
                ).remove(key));
            } else {
                assert(table_of(rest.remove(i - 1)).insert(entries[0].0, entries[0].1).remove(key)
                    =~= table_of(rest.remove(i - 1)).remove(key).insert(
                    entries[0].0,
                    entries[0].1,
                ));
                assert(table_of(rest).insert(entries[0].0, entries[0].1).remove(key) =~= table_of(
                    rest,
                ).remove(key).insert(entries[0].0, entries[0].1));
            }
        }
    }
}

proof fn lemma_table_push<K, V>(entries: Seq<(K, V)>, key: K, value: V)
    requires
        !table_of(entries).dom().contains(key),
    ensures
        table_of(entries.push((key, value))) == table_of(entries).insert(key, value),
    decreases entries.len(),
{
    let more = entries.push((key, value));
    if entries.len() == 0 {
        assert(more.drop_first() =~= seq![]);
        assert(table_of(more.drop_first()) == Map::<K, V>::empty());
        assert(table_of(entries) == Map::<K, V>::empty());
    } else {
        let rest = entries.drop_first();
        lemma_table_push(rest, key, value);
        assert(more.drop_first() =~= rest.push((key, value)));
        assert(more[0] == entries[0]);
        assert(table_of(more) =~= table_of(entries).insert(key, value));
    }
}

impl<K: TableKey, V: DeepView> Table<K, V> {
    /// A table without entries.
    pub fn new() -> (r: Self)
        ensures
            r.deep_view() == Map::<K::V, V::V>::empty(),
    {
        let r = Table { entries: Vec::new() };
        assert(r.entries.deep_view() =~= seq![]);
        r
    }

    fn position(&self, key: &K) -> (found: Option<usize>)
        ensures
            found is Some <==> self.deep_view().dom().contains(key.deep_view()),
            found matches Some(i) ==> {
                &&& i < self.entries.len()
                &&& self.entries@[i as int].0.deep_view() == key.deep_view()
                &&& self.deep_view()[key.deep_view()] == self.entries@[i as int].1.deep_view()
            },
    {
        let ghost all = self.entries.deep_view();
        let mut i: usize = 0;
        while i < self.entries.len()
            invariant
                i <= self.entries.len(),
                all == self.entries.deep_view(),
                forall|j: int| 0 <= j < i ==> (#[trigger] all[j]).0 != key.deep_view(),
            decreases self.entries.len() - i,
        {
            assert(all[i as int].0 == self.entries@[i as int].0.deep_view());
            if self.entries[i].0.same_key(key) {
                proof {
                    lemma_table_first(all, i as int);
                }
                return Some(i);
            }
            i = i + 1;
        }
        proof {
            lemma_table_dom(all, key.deep_view());
        }
        None
    }

    /// Whether the table has an entry for a key.
    pub fn contains_key(&self, key: &K) -> (r: bool)
        ensures
            r == self.deep_view().dom().contains(key.deep_view()),
    {
        self.position(key).is_some()
    }

    /// The value of a key.
    pub fn get(&self, key: &K) -> (r: Option<&V>)
        ensures
            r is Some <==> self.deep_view().dom().contains(key.deep_view()),
            r matches Some(value) ==> self.deep_view()[key.deep_view()] == value.deep_view(),
    {
        match self.position(key) {
            Some(i) => Some(&self.entries[i].1),
            None => None,
        }
    }

    /// Takes out the entry of a key, and gives its value.
    pub fn remove(&mut self, key: &K) -> (r: Option<V>)
        ensures
            final(self).deep_view() == old(self).deep_view().remove(key.deep_view()),
            r is Some <==> old(self).deep_view().dom().contains(key.deep_view()),
            r matches Some(value) ==> old(self).deep_view()[key.deep_view()] == value.deep_view(),
    {
        let ghost whole = self.deep_view();
        let ghost name = key.deep_view();
        match self.position(key) {
            Some(first) => {
                let ghost before = self.entries.deep_view();
                let (_, value) = self.entries.remove(first);
                proof {
                    assert(self.entries.deep_view() =~= before.remove(first as int));
                    lemma_table_remove(before, first as int);
                }
                let mut i: usize = 0;
                while i < self.entries.len()
                    invariant
                        whole == old(self).deep_view(),
                        name == key.deep_view(),
                        i <= self.entries.len(),
                        self.deep_view().remove(name) == whole.remove(name),
                        forall|j: int|
                            0 <= j < i ==> (#[trigger] self.entries.deep_view()[j]).0 != name,
                    decreases self.entries.len() - i,
                {
                    let ghost listed = self.entries.deep_view();
                    assert(listed[i as int].0 == self.entries@[i as int].0.deep_view());
                    if self.entries[i].0.same_key(key) {
                        self.entries.remove(i);
                        proof {
                            assert(self.entries.deep_view() =~= listed.remove(i as int));
                            lemma_table_remove(listed, i as int);
                        }
                    } else {
                        i = i + 1;
                    }
                }
                proof {
                    lemma_table_dom(self.entries.deep_view(), name);
                    assert(self.deep_view().remove(name) =~= self.deep_view());
                }
                Some(value)
            },
            None => {
                assert(whole.remove(name) =~= whole);
                None
            },
        }
    }

    /// Sets the value of a key.
    pub fn insert(&mut self, key: K, value: V)
        ensures
            final(self).deep_view() == old(self).deep_view().insert(
                key.deep_view(),
                value.deep_view(),
            ),
    {
        let ghost whole = self.deep_view();
        self.remove(&key);
        let ghost before = self.entries.deep_view();
        self.entries.push((key, value));
        proof {
            assert(self.entries.deep_view() =~= before.push((key.deep_view(), value.deep_view())));
            lemma_table_push(before, key.deep_view(), value.deep_view());
            assert(self.deep_view() =~= whole.insert(key.deep_view(), value.deep_view()));
        }
    }

    /// The keys of the table.
    pub fn keys(&self) -> (r: Vec<K>)
        ensures
            r.deep_view().no_duplicates(),
            forall|key: K::V| #[trigger]
                r.deep_view().contains(key) <==> self.deep_view().dom().contains(key),
    {
        let ghost all = self.entries.deep_view();
        let mut keys: Vec<K> = Vec::new();
        let mut i: usize = 0;
        while i < self.entries.len()
            invariant
                i <= self.entries.len(),
                all == self.entries.deep_view(),
                keys.deep_view().no_duplicates(),
                forall|k: int|
                    0 <= k < i ==> keys.deep_view().contains((#[trigger] all[k]).0),
                forall|k: int|
                    0 <= k < keys.len() ==> self.deep_view().dom().contains(
                        #[trigger] keys.deep_view()[k],
                    ),
            decreases self.entries.len() - i,
        {
            let ghost before = keys.deep_view();
            let ghost name = all[i as int].0;
            assert(name == self.entries@[i as int].0.deep_view());
            let mut listed = false;
            let mut j: usize = 0;
            while j < keys.len()
                invariant
                    i < self.entries.len(),
                    j <= keys.len(),
                    before == keys.deep_view(),
                    name == self.entries@[i as int].0.deep_view(),
                    listed <==> exists|k: int| 0 <= k < j && #[trigger] before[k] == name,
                decreases keys.len() - j,
            {
                assert(before[j as int] == keys@[j as int].deep_view());
                if keys[j].same_key(&self.entries[i].0) {
                    listed = true;
                }
                j = j + 1;
            }
            if !listed {
                let key = self.entries[i].0.copy_key();
                keys.push(key);
                proof {
                    assert(keys.deep_view() =~= before.push(name));
                    lemma_table_dom(all, name);
                    assert forall|k: int| 0 <= k < i implies keys.deep_view().contains(
                        (#[trigger] all[k]).0,
                    ) by {
                        assert(before.contains(all[k].0));
                        let q = choose|q: int| 0 <= q < before.len() && before[q] == all[k].0;
                        assert(keys.deep_view()[q] == all[k].0);
                    }
                    assert(keys.deep_view()[before.len() as int] == name);
                    assert forall|k: int| 0 <= k < keys.len() implies self.deep_view().dom().contains(
                        #[trigger] keys.deep_view()[k],
                    ) by {
                        if k < before.len() {
                            assert(keys.deep_view()[k] == before[k]);
                        }
                    }
                }
            }
            i = i + 1;
        }
        proof {
            assert forall|key: K::V| #[trigger]
                keys.deep_view().contains(key) <==> self.deep_view().dom().contains(key) by {
                lemma_table_dom(all, key);
                if self.deep_view().dom().contains(key) {
                    let k = choose|k: int| 0 <= k < all.len() && (#[trigger] all[k]).0 == key;
                    assert(keys.deep_view().contains(all[k].0));
                }
            }
        }
        keys
    }
}

} // verus!
