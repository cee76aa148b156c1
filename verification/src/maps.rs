//! Small keyed stores used throughout the engine.
//!
//! `IdMap` keys values by node id and keeps insertion order, so
//! traversals are deterministic.  Argument lists are plain vectors of
//! `(name, value)` pairs searched front to back.

use vstd::prelude::*;

verus! {

/// The map described by an association list, later entries winning.
pub open spec fn id_map_of<T>(s: Seq<(u32, T)>) -> Map<u32, T>
    decreases s.len(),
{
    if s.len() == 0 {
        Map::empty()
    } else {
        id_map_of(s.drop_last()).insert(s.last().0, s.last().1)
    }
}

/// The map of an association list covers finitely many keys.
pub proof fn lemma_id_map_finite<T>(s: Seq<(u32, T)>)
    ensures
        id_map_of(s).dom().finite(),
        id_map_of(s).dom().len() <= s.len(),
        unique_ids(s) ==> id_map_of(s).dom().len() == s.len(),
    decreases s.len(),
{
    reveal_with_fuel(id_map_of, 2);
    if s.len() > 0 {
        lemma_id_map_finite(s.drop_last());
        if unique_ids(s) {
            assert(unique_ids(s.drop_last())) by {
                assert(forall|i: int, j: int| 0 <= i < j < s.drop_last().len() ==> (
                #[trigger] s.drop_last()[i]).0 != (#[trigger] s.drop_last()[j]).0) by {
                    assert(forall|i: int| 0 <= i < s.drop_last().len() ==> s.drop_last()[i] == s[i]);
                }
            }
            assert(!id_map_of(s.drop_last()).dom().contains(s.last().0)) by {
                lemma_id_map_contains(s.drop_last(), s.last().0);
                if id_map_of(s.drop_last()).dom().contains(s.last().0) {
                    let i = choose|i: int| 0 <= i < s.drop_last().len() && (#[trigger] s.drop_last()[i]).0
                        == s.last().0;
                    assert(s[i].0 == s[s.len() - 1].0);
                }
            }
        }
    }
}

/// No key occurs twice.
pub open spec fn unique_ids<T>(s: Seq<(u32, T)>) -> bool {
    forall|i: int, j: int| 0 <= i < j < s.len() ==> (#[trigger] s[i]).0 != (#[trigger] s[j]).0
}

pub proof fn lemma_id_map_contains<T>(s: Seq<(u32, T)>, k: u32)
    ensures
        id_map_of(s).dom().contains(k) <==> exists|i: int| 0 <= i < s.len() && (#[trigger] s[i]).0
            == k,
    decreases s.len(),
{
    reveal_with_fuel(id_map_of, 2);
    if s.len() > 0 {
        lemma_id_map_contains(s.drop_last(), k);
        if id_map_of(s).dom().contains(k) {
            if s.last().0 == k {
                assert(s[s.len() - 1].0 == k);
            } else {
                let sd = s.drop_last();
                let i = choose|i: int| 0 <= i < sd.len() && (#[trigger] sd[i]).0 == k;
                assert(s[i].0 == k);
            }
        }
        if exists|i: int| 0 <= i < s.len() && (#[trigger] s[i]).0 == k {
            let i = choose|i: int| 0 <= i < s.len() && (#[trigger] s[i]).0 == k;
            if i < s.len() - 1 {
                assert(s.drop_last()[i].0 == k);
            }
        }
    }
}

pub proof fn lemma_id_map_get<T>(s: Seq<(u32, T)>, k: u32, i: int)
    requires
        unique_ids(s),
        0 <= i < s.len(),
        s[i].0 == k,
    ensures
        id_map_of(s).dom().contains(k),
        id_map_of(s)[k] == s[i].1,
    decreases s.len(),
{
    reveal_with_fuel(id_map_of, 2);
    if i == s.len() - 1 {
    } else {
        assert(s[i].0 != s[s.len() - 1].0);
        assert(s.drop_last()[i] == s[i]);
        lemma_id_map_get(s.drop_last(), k, i);
    }
}

/// Appending a fresh entry inserts it into the map.
pub proof fn lemma_id_map_push<T>(s: Seq<(u32, T)>, k: u32, v: T)
    ensures
        id_map_of(s.push((k, v))) == id_map_of(s).insert(k, v),
{
    reveal_with_fuel(id_map_of, 2);
    assert(s.push((k, v)).drop_last() =~= s);
}

/// Replacing the entry that holds a key updates the map at that key.
pub proof fn lemma_id_map_update<T>(s: Seq<(u32, T)>, i: int, k: u32, v: T)
    requires
        unique_ids(s),
        0 <= i < s.len(),
        s[i].0 == k,
    ensures
        id_map_of(s.update(i, (k, v))) == id_map_of(s).insert(k, v),
    decreases s.len(),
{
    reveal_with_fuel(id_map_of, 2);
    let t = s.update(i, (k, v));
    if i == s.len() - 1 {
        assert(t.drop_last() =~= s.drop_last());
        assert(t.last() == (k, v));
    } else {
        assert(s[i].0 != s[s.len() - 1].0);
        assert(t.drop_last() =~= s.drop_last().update(i, (k, v)));
        assert(s.drop_last()[i] == s[i]);
        lemma_id_map_update(s.drop_last(), i, k, v);
        assert(t.last() == s.last());
        lemma_id_map_get(s, k, i);
    }
    assert(id_map_of(t) =~= id_map_of(s).insert(k, v));
}

/// An insertion-ordered store of values keyed by node id.
#[derive(Debug)]
pub struct IdMap<V> {
    pub entries: Vec<(u32, V)>,
}

impl<V: DeepView> DeepView for IdMap<V> {
    type V = Seq<(u32, V::V)>;

    open spec fn deep_view(&self) -> Seq<(u32, V::V)> {
        self.entries.deep_view()
    }
}

impl<V: DeepView> IdMap<V> {
    /// The keyed view of the store.
    pub open spec fn as_map(self) -> Map<u32, V::V> {
        id_map_of(self.deep_view())
    }

    /// Keys are unique; required by every operation.
    pub open spec fn wf(self) -> bool {
        unique_ids(self.deep_view())
    }

    pub open spec fn spec_contains(self, k: u32) -> bool {
        self.as_map().dom().contains(k)
    }

    pub fn new() -> (r: Self)
        ensures
            r.wf(),
            r.as_map() == Map::<u32, V::V>::empty(),
            r.deep_view() == Seq::<(u32, V::V)>::empty(),
    {
        let r = IdMap { entries: Vec::new() };
        proof {
            assert(r.deep_view() =~= Seq::<(u32, V::V)>::empty());
        }
        r
    }

    pub fn len(&self) -> (r: usize)
        ensures
            r == self.deep_view().len(),
    {
        self.entries.len()
    }

    /// Looks a node id up.
    pub fn get(&self, k: u32) -> (r: Option<&V>)
        requires
            self.wf(),
        ensures
            match r {
                Some(v) => self.spec_contains(k) && v.deep_view() == self.as_map()[k],
                None => !self.spec_contains(k),
            },
    {
        let ghost s = self.deep_view();
        let mut i: usize = 0;
        while i < self.entries.len()
            invariant
                i <= s.len(),
                s == self.deep_view(),
                unique_ids(s),
                self.entries@.len() == s.len(),
                forall|j: int| 0 <= j < i ==> (#[trigger] s[j]).0 != k,
            decreases s.len() - i,
        {
            proof {
                assert(s[i as int] == self.entries@[i as int].deep_view());
            }
            if self.entries[i].0 == k {
                proof {
                    lemma_id_map_get(s, k, i as int);
                }
                return Some(&self.entries[i].1);
            }
            i = i + 1;
        }
        proof {
            lemma_id_map_contains(s, k);
        }
        None
    }

    /// Whether a node id is present.
    pub fn contains(&self, k: u32) -> (r: bool)
        requires
            self.wf(),
        ensures
            r == self.spec_contains(k),
    {
        match self.get(k) {
            Some(_) => true,
            None => false,
        }
    }

    /// Inserts or replaces; a fresh key is appended at the back.
    pub fn insert(&mut self, k: u32, v: V)
        requires
            old(self).wf(),
        ensures
            final(self).wf(),
            final(self).as_map() == old(self).as_map().insert(k, v.deep_view()),
            !old(self).spec_contains(k) ==> final(self).deep_view() == old(self).deep_view().push(
                (k, v.deep_view()),
            ),
            old(self).spec_contains(k) ==> final(self).deep_view().len() == old(
                self,
            ).deep_view().len(),
            final(self).spec_contains(k),
    {
        let ghost s = self.deep_view();
        let mut i: usize = 0;
        while i < self.entries.len()
            invariant
                i <= s.len(),
                s == self.deep_view(),
                s == old(self).deep_view(),
                unique_ids(s),
                self.entries@.len() == s.len(),
                forall|j: int| 0 <= j < i ==> (#[trigger] s[j]).0 != k,
            decreases s.len() - i,
        {
            proof {
                assert(s[i as int] == self.entries@[i as int].deep_view());
            }
            if self.entries[i].0 == k {
                self.entries.remove(i);
                self.entries.insert(i, (k, v));
                proof {
                    assert(self.deep_view() =~= s.update(i as int, (k, v.deep_view())));
                    assert forall|a: int, b: int| 0 <= a < b < self.deep_view().len() implies (
                    #[trigger] self.deep_view()[a]).0 != (#[trigger] self.deep_view()[b]).0 by {
                        assert(s[a].0 != s[b].0);
                    }
                    lemma_id_map_get(s, k, i as int);
                    lemma_id_map_update(s, i as int, k, v.deep_view());
                    lemma_id_map_get(
                        self.deep_view(),
                        k,
                        i as int,
                    );
                }
                return ;
            }
            i = i + 1;
        }
        self.entries.push((k, v));
        proof {
            assert(self.deep_view() =~= s.push((k, v.deep_view())));
            let t = self.deep_view();
            assert forall|a: int, b: int| 0 <= a < b < t.len() implies (#[trigger] t[a]).0 != (
            #[trigger] t[b]).0 by {
                if b < s.len() {
                    assert(s[a].0 != s[b].0);
                } else {
                    assert(s[a].0 != k);
                }
            }
            lemma_id_map_push(s, k, v.deep_view());
            lemma_id_map_contains(s, k);
            lemma_id_map_get(t, k, s.len() as int);
        }
    }
}

/// First value stored under a name, searching front to back.
pub open spec fn str_lookup<T>(s: Seq<(Seq<char>, T)>, name: Seq<char>) -> Option<T>
    decreases s.len(),
{
    if s.len() == 0 {
        Option::None
    } else if s[0].0 == name {
        Option::Some(s[0].1)
    } else {
        str_lookup(s.drop_first(), name)
    }
}

pub proof fn lemma_str_lookup_found<T>(s: Seq<(Seq<char>, T)>, name: Seq<char>, i: int)
    requires
        0 <= i < s.len(),
        s[i].0 == name,
        forall|j: int| 0 <= j < i ==> (#[trigger] s[j]).0 != name,
    ensures
        str_lookup(s, name) == Option::Some(s[i].1),
    decreases s.len(),
{
    reveal_with_fuel(str_lookup, 2);
    if i > 0 {
        assert forall|j: int| 0 <= j < i - 1 implies (#[trigger] s.drop_first()[j]).0 != name by {
            assert(s[j + 1].0 != name);
        }
        assert(s.drop_first()[i - 1] == s[i]);
        lemma_str_lookup_found(s.drop_first(), name, i - 1);
    }
}

pub proof fn lemma_str_lookup_none<T>(s: Seq<(Seq<char>, T)>, name: Seq<char>)
    requires
        forall|j: int| 0 <= j < s.len() ==> (#[trigger] s[j]).0 != name,
    ensures
        str_lookup(s, name) == Option::<T>::None,
    decreases s.len(),
{
    reveal_with_fuel(str_lookup, 2);
    if s.len() > 0 {
        let sd = s.drop_first();
        assert forall|j: int| 0 <= j < sd.len() implies (#[trigger] sd[j]).0 != name by {
            assert(s[j + 1].0 != name);
        }
        lemma_str_lookup_none(s.drop_first(), name);
    }
}

/// Looks a name up in an argument-style list.
pub fn str_get<'a, V: DeepView>(entries: &'a Vec<(String, V)>, name: &String) -> (r: Option<&'a V>)
    ensures
        match r {
            Some(v) => str_lookup(entries.deep_view(), name@) == Option::Some(v.deep_view()),
            None => str_lookup(entries.deep_view(), name@) is None,
        },
{
    let ghost s = entries.deep_view();
    let mut i: usize = 0;
    while i < entries.len()
        invariant
            i <= s.len(),
            s == entries.deep_view(),
            entries@.len() == s.len(),
            forall|j: int| 0 <= j < i ==> (#[trigger] s[j]).0 != name@,
        decreases s.len() - i,
    {
        proof {
            assert(s[i as int] == entries@[i as int].deep_view());
        }
        if entries[i].0.eq(name) {
            proof {
                lemma_str_lookup_found(s, name@, i as int);
            }
            return Some(&entries[i].1);
        }
        i = i + 1;
    }
    proof {
        lemma_str_lookup_none(s, name@);
    }
    None
}


/// A successful lookup has a first matching index: the entry it
/// returns, with no earlier entry of the same name.
pub proof fn lemma_str_lookup_first_index<T>(s: Seq<(Seq<char>, T)>, name: Seq<char>)
    requires
        str_lookup(s, name) is Some,
    ensures
        exists|k: int|
            {
                &&& 0 <= k < s.len()
                &&& (#[trigger] s[k]).0 == name
                &&& s[k].1 == str_lookup(s, name)->0
                &&& forall|j: int| 0 <= j < k ==> (#[trigger] s[j]).0 != name
            },
    decreases s.len(),
{
    reveal_with_fuel(str_lookup, 2);
    if s[0].0 == name {
        assert({
            &&& 0 <= 0 < s.len()
            &&& s[0].0 == name
            &&& s[0].1 == str_lookup(s, name)->0
            &&& forall|j: int| 0 <= j < 0 ==> (#[trigger] s[j]).0 != name
        });
    } else {
        let sd = s.drop_first();
        lemma_str_lookup_first_index(sd, name);
        let k = choose|k: int|
            {
                &&& 0 <= k < sd.len()
                &&& (#[trigger] sd[k]).0 == name
                &&& sd[k].1 == str_lookup(sd, name)->0
                &&& forall|j: int| 0 <= j < k ==> (#[trigger] sd[j]).0 != name
            };
        assert(s[k + 1].0 == name);
        assert forall|j: int| 0 <= j < k + 1 implies (#[trigger] s[j]).0 != name by {
            if j > 0 {
                assert(sd[j - 1].0 != name);
            }
        }
        assert({
            &&& 0 <= k + 1 < s.len()
            &&& s[k + 1].0 == name
            &&& s[k + 1].1 == str_lookup(s, name)->0
            &&& forall|j: int| 0 <= j < k + 1 ==> (#[trigger] s[j]).0 != name
        });
    }
}

} // verus!
