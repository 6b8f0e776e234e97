//! A map from strings, which remembers the order in which its keys came.

use crate::text::same;
use vstd::prelude::*;

verus! {

/// The value that belongs to `key`.
pub open spec fn lookup<T>(entries: Seq<(Seq<char>, T)>, key: Seq<char>) -> Option<T>
    decreases entries.len(),
{
    if entries.len() == 0 {
        None
    } else if entries[0].0 == key {
        Some(entries[0].1)
    } else {
        lookup(entries.drop_first(), key)
    }
}

/// The entries after `value` was put under `key`: in the place of the old value where there is
/// one, else at the end.
pub open spec fn upsert<T>(entries: Seq<(Seq<char>, T)>, key: Seq<char>, value: T) -> Seq<
    (Seq<char>, T),
>
    decreases entries.len(),
{
    if entries.len() == 0 {
        seq![(key, value)]
    } else if entries[0].0 == key {
        seq![(key, value)] + entries.drop_first()
    } else {
        seq![entries[0]] + upsert(entries.drop_first(), key, value)
    }
}

/// No key occurs twice.
pub open spec fn keys_differ<T>(entries: Seq<(Seq<char>, T)>) -> bool {
    forall|i: int, j: int|
        #![trigger entries[i], entries[j]]
        0 <= i < j < entries.len() ==> entries[i].0 != entries[j].0
}

/// Where the value of a key is found.
pub proof fn lemma_lookup_at<T>(entries: Seq<(Seq<char>, T)>, key: Seq<char>, i: int)
    requires
        0 <= i < entries.len(),
        entries[i].0 == key,
        forall|j: int| 0 <= j < i ==> (#[trigger] entries[j]).0 != key,
    ensures
        lookup(entries, key) == Some(entries[i].1),
    decreases entries.len(),
{
    if entries[0].0 != key {
        let rest = entries.drop_first();
        assert(rest[i - 1] == entries[i]);
        assert forall|j: int| 0 <= j < i - 1 implies (#[trigger] rest[j]).0 != key by {
            assert(rest[j] == entries[j + 1]);
        }
        lemma_lookup_at(rest, key, i - 1);
    }
}

/// A key that stands nowhere has no value.
pub proof fn lemma_lookup_none<T>(entries: Seq<(Seq<char>, T)>, key: Seq<char>)
    requires
        forall|j: int| 0 <= j < entries.len() ==> (#[trigger] entries[j]).0 != key,
    ensures
        lookup(entries, key) is None,
    decreases entries.len(),
{
    if entries.len() > 0 {
        let rest = entries.drop_first();
        assert(entries[0].0 != key);
        assert forall|j: int| 0 <= j < rest.len() implies (#[trigger] rest[j]).0 != key by {
            assert(rest[j] == entries[j + 1]);
        }
        lemma_lookup_none(rest, key);
    }
}

/// A value that is found stands somewhere under its key.
pub proof fn lemma_lookup_some<T>(entries: Seq<(Seq<char>, T)>, key: Seq<char>) -> (i: int)
    requires
        lookup(entries, key) is Some,
    ensures
        0 <= i < entries.len(),
        entries[i] == (key, lookup(entries, key)->0),
    decreases entries.len(),
{
    if entries[0].0 == key {
        0
    } else {
        let i = lemma_lookup_some(entries.drop_first(), key);
        i + 1
    }
}

/// What was put under a key is found there, and nothing else changed.
pub proof fn lemma_upsert_lookup<T>(
    entries: Seq<(Seq<char>, T)>,
    key: Seq<char>,
    value: T,
    other: Seq<char>,
)
    ensures
        lookup(upsert(entries, key, value), other) == (if other == key {
            Some(value)
        } else {
            lookup(entries, other)
        }),
    decreases entries.len(),
{
    let after = upsert(entries, key, value);
    if entries.len() == 0 {
        assert(after.drop_first() =~= entries);
    } else if entries[0].0 == key {
        assert(after.drop_first() =~= entries.drop_first());
    } else {
        assert(after.drop_first() =~= upsert(entries.drop_first(), key, value));
        lemma_upsert_lookup(entries.drop_first(), key, value, other);
    }
}

/// Every entry after an `upsert` is the new one or an old one with another key.
pub proof fn lemma_upsert_entry<T>(
    entries: Seq<(Seq<char>, T)>,
    key: Seq<char>,
    value: T,
    i: int,
)
    requires
        keys_differ(entries),
        0 <= i < upsert(entries, key, value).len(),
    ensures
        upsert(entries, key, value)[i] == (key, value) || (upsert(entries, key, value)[i].0 != key
            && entries.contains(upsert(entries, key, value)[i])),
    decreases entries.len(),
{
    let after = upsert(entries, key, value);
    if entries.len() > 0 {
        let rest = entries.drop_first();
        assert(keys_differ(rest)) by {
            assert forall|a: int, b: int|
                #![trigger rest[a], rest[b]]
                0 <= a < b < rest.len() implies rest[a].0 != rest[b].0 by {
                assert(rest[a] == entries[a + 1] && rest[b] == entries[b + 1]);
            }
        }
        if entries[0].0 == key {
            if i > 0 {
                assert(after[i] == entries[i]);
                assert(entries[0].0 != entries[i].0);
            }
        } else if i == 0 {
            assert(after[0] == entries[0]);
        } else {
            assert(after[i] == upsert(rest, key, value)[i - 1]);
            lemma_upsert_entry(rest, key, value, i - 1);
            if after[i] != (key, value) {
                let j = choose|j: int| 0 <= j < rest.len() && rest[j] == after[i];
                assert(entries[j + 1] == after[i]);
            }
        }
    }
}

/// Putting a value under a key keeps the keys apart.
pub proof fn lemma_upsert_keys_differ<T>(entries: Seq<(Seq<char>, T)>, key: Seq<char>, value: T)
    requires
        keys_differ(entries),
    ensures
        keys_differ(upsert(entries, key, value)),
    decreases entries.len(),
{
    let after = upsert(entries, key, value);
    if entries.len() > 0 {
        let rest = entries.drop_first();
        assert(keys_differ(rest)) by {
            assert forall|a: int, b: int|
                #![trigger rest[a], rest[b]]
                0 <= a < b < rest.len() implies rest[a].0 != rest[b].0 by {
                assert(rest[a] == entries[a + 1] && rest[b] == entries[b + 1]);
            }
        }
        if entries[0].0 == key {
            assert forall|a: int, b: int|
                #![trigger after[a], after[b]]
                0 <= a < b < after.len() implies after[a].0 != after[b].0 by {
                assert(after[a].0 == entries[a].0 && after[b].0 == entries[b].0);
            }
        } else {
            let tail = upsert(rest, key, value);
            lemma_upsert_keys_differ(rest, key, value);
            assert forall|a: int, b: int|
                #![trigger after[a], after[b]]
                0 <= a < b < after.len() implies after[a].0 != after[b].0 by {
                assert(after[b] == tail[b - 1]);
                if a > 0 {
                    assert(after[a] == tail[a - 1]);
                } else {
                    lemma_upsert_entry(rest, key, value, b - 1);
                    if after[b] != (key, value) {
                        let j = choose|j: int| 0 <= j < rest.len() && rest[j] == after[b];
                        assert(entries[j + 1] == after[b]);
                        assert(entries[0].0 != entries[j + 1].0);
                    }
                }
            }
        }
    }
}

/// Replacing the value at the place of the key, and nothing before it has that key.
pub proof fn lemma_upsert_update<T>(
    entries: Seq<(Seq<char>, T)>,
    key: Seq<char>,
    value: T,
    i: int,
)
    requires
        0 <= i < entries.len(),
        entries[i].0 == key,
        forall|j: int| 0 <= j < i ==> (#[trigger] entries[j]).0 != key,
    ensures
        upsert(entries, key, value) == entries.update(i, (key, value)),
    decreases entries.len(),
{
    if entries[0].0 == key {
        assert(i == 0);
        assert(upsert(entries, key, value) =~= entries.update(i, (key, value)));
    } else {
        let rest = entries.drop_first();
        assert(rest[i - 1] == entries[i]);
        assert forall|j: int| 0 <= j < i - 1 implies (#[trigger] rest[j]).0 != key by {
            assert(rest[j] == entries[j + 1]);
        }
        lemma_upsert_update(rest, key, value, i - 1);
        assert(upsert(entries, key, value) =~= entries.update(i, (key, value)));
    }
}

/// A new key comes last.
pub proof fn lemma_upsert_push<T>(entries: Seq<(Seq<char>, T)>, key: Seq<char>, value: T)
    requires
        forall|j: int| 0 <= j < entries.len() ==> (#[trigger] entries[j]).0 != key,
    ensures
        upsert(entries, key, value) == entries.push((key, value)),
    decreases entries.len(),
{
    if entries.len() == 0 {
        assert(upsert(entries, key, value) =~= entries.push((key, value)));
    } else {
        let rest = entries.drop_first();
        assert(entries[0].0 != key);
        assert forall|j: int| 0 <= j < rest.len() implies (#[trigger] rest[j]).0 != key by {
            assert(rest[j] == entries[j + 1]);
        }
        lemma_upsert_push(rest, key, value);
        assert(upsert(entries, key, value) =~= entries.push((key, value)));
    }
}

/// A map from strings to values. Each key stands once; the order is that of first insertion.
#[derive(Debug)]
pub struct StringMap<V> {
    entries: Vec<(String, V)>,
}

impl<V: DeepView> View for StringMap<V> {
    type V = Seq<(Seq<char>, V::V)>;

    closed spec fn view(&self) -> Seq<(Seq<char>, V::V)> {
        entries_view(self.entries@)
    }
}

spec fn entries_view<V: DeepView>(entries: Seq<(String, V)>) -> Seq<(Seq<char>, V::V)> {
    Seq::new(entries.len(), |i: int| (entries[i].0@, entries[i].1.deep_view()))
}

impl<V> StringMap<V> {
    #[verifier::type_invariant]
    spec fn inv(self) -> bool {
        forall|i: int, j: int|
            #![trigger self.entries@[i], self.entries@[j]]
            0 <= i < j < self.entries@.len() ==> self.entries@[i].0@ != self.entries@[j].0@
    }
}

impl<V> StringMap<V> {
    /// The keys, in the order in which they came.
    pub closed spec fn keys(self) -> Seq<Seq<char>> {
        Seq::new(self.entries@.len(), |i: int| self.entries@[i].0@)
    }

    /// The values, in the order of their keys.
    pub closed spec fn values(self) -> Seq<V> {
        Seq::new(self.entries@.len(), |i: int| self.entries@[i].1)
    }
}

impl<V: Clone> Clone for StringMap<V> {
    fn clone(&self) -> (r: Self)
        ensures
            r.keys() == self.keys(),
            r.values().len() == self.values().len(),
            forall|i: int|
                0 <= i < self.values().len() ==> cloned(self.values()[i], #[trigger] r.values()[i]),
    {
        proof {
            use_type_invariant(self);
        }
        let mut entries: Vec<(String, V)> = Vec::new();
        let mut i: usize = 0;
        while i < self.entries.len()
            invariant
                i <= self.entries.len(),
                entries.len() == i,
                forall|j: int|
                    0 <= j < i ==> (#[trigger] entries@[j]).0@ == self.entries@[j].0@ && cloned(
                        self.entries@[j].1,
                        entries@[j].1,
                    ),
            decreases self.entries.len() - i,
        {
            let entry = &self.entries[i];
            entries.push((entry.0.clone(), entry.1.clone()));
            i = i + 1;
        }
        let r = StringMap { entries };
        proof {
            assert(r.keys() =~= self.keys());
        }
        r
    }
}

impl<V: DeepView> StringMap<V> {
    /// The empty map.
    pub fn new() -> (r: Self)
        ensures
            r@ == Seq::<(Seq<char>, V::V)>::empty(),
    {
        let r: StringMap<V> = StringMap { entries: Vec::new() };
        proof {
            assert(r@ =~= Seq::<(Seq<char>, V::V)>::empty());
        }
        r
    }

    /// How many keys the map has.
    pub fn len(&self) -> (n: usize)
        ensures
            n == self@.len(),
            keys_differ(self@),
    {
        proof {
            use_type_invariant(self);
            assert forall|i: int, j: int|
                #![trigger self@[i], self@[j]]
                0 <= i < j < self@.len() implies self@[i].0 != self@[j].0 by {
                assert(self.entries@[i].0@ != self.entries@[j].0@);
            }
        }
        self.entries.len()
    }

    /// The value of `key`.
    pub fn get(&self, key: &str) -> (r: Option<&V>)
        ensures
            match r {
                Some(v) => lookup(self@, key@) == Some(v.deep_view()),
                None => lookup(self@, key@) is None,
            },
    {
        let mut i: usize = 0;
        while i < self.entries.len()
            invariant
                i <= self.entries.len(),
                forall|j: int| 0 <= j < i ==> (#[trigger] self@[j]).0 != key@,
            decreases self.entries.len() - i,
        {
            if same(self.entries[i].0.as_str(), key) {
                proof {
                    lemma_lookup_at(self@, key@, i as int);
                }
                return Some(&self.entries[i].1);
            }
            i = i + 1;
        }
        proof {
            lemma_lookup_none(self@, key@);
        }
        None
    }

    /// The value that came as number `i`.
    pub fn value_at(&self, i: usize) -> (v: &V)
        requires
            i < self@.len(),
        ensures
            v.deep_view() == self@[i as int].1,
    {
        &self.entries[i].1
    }

    /// Puts `value` under `key`, in the place of what stood there.
    pub fn insert(&mut self, key: String, value: V)
        ensures
            final(self)@ == upsert(old(self)@, key@, value.deep_view()),
    {
        proof {
            use_type_invariant(&*self);
        }
        let ghost before = self@;
        let mut entries: Vec<(String, V)> = Vec::new();
        std::mem::swap(&mut entries, &mut self.entries);
        let mut i: usize = 0;
        while i < entries.len()
            invariant
                i <= entries.len(),
                before == entries_view(entries@),
                forall|a: int, b: int|
                    #![trigger entries@[a], entries@[b]]
                    0 <= a < b < entries@.len() ==> entries@[a].0@ != entries@[b].0@,
                forall|j: int| 0 <= j < i ==> (#[trigger] before[j]).0 != key@,
            ensures
                before == entries_view(entries@),
                forall|a: int, b: int|
                    #![trigger entries@[a], entries@[b]]
                    0 <= a < b < entries@.len() ==> entries@[a].0@ != entries@[b].0@,
                forall|j: int| 0 <= j < i ==> (#[trigger] before[j]).0 != key@,
                i <= entries.len(),
                i < entries.len() ==> entries@[i as int].0@ == key@,
            decreases entries.len() - i,
        {
            if same(entries[i].0.as_str(), key.as_str()) {
                break;
            }
            i = i + 1;
        }
        let ghost (k, v) = (key@, value.deep_view());
        if i < entries.len() {
            entries.set(i, (key, value));
            proof {
                lemma_upsert_update(before, k, v, i as int);
                assert(entries_view(entries@) =~= before.update(i as int, (k, v)));
            }
        } else {
            proof {
                lemma_upsert_push(before, k, v);
            }
            let ghost unpushed = entries@;
            entries.push((key, value));
            proof {
                assert(entries_view(entries@) =~= before.push((k, v)));
                assert forall|a: int, b: int|
                    #![trigger entries@[a], entries@[b]]
                    0 <= a < b < entries@.len() implies entries@[a].0@ != entries@[b].0@ by {
                    assert(before[a].0 == unpushed[a].0@);
                }
            }
        }
        self.entries = entries;
    }
}

} // verus!
