//! Verified association containers.
//!
//! The engine's caches and tables are maps from identifier types to model
//! values.  They are held as entry vectors with pairwise-distinct keys, and
//! viewed as `Map`s over the keys' abstract values, so that every read and
//! write has an exact meaning at the specification level.  Iteration order is
//! insertion order, which keeps the engine deterministic.

use vstd::prelude::*;

verus! {

/// A key type of an association container: equality of the abstract values
/// is decidable, and a key can be duplicated.
pub trait MapKey: View + Sized {
    fn key_eq(&self, other: &Self) -> (r: bool)
        ensures
            r == (self@ == other@),
    ;

    fn key_dup(&self) -> (r: Self)
        ensures
            r@ == self@,
    ;
}

/// A value type whose copies keep the abstract value.
pub trait DupValue: View + Sized {
    fn dup(&self) -> (r: Self)
        ensures
            r@ == self@,
    ;
}

impl DupValue for u64 {
    fn dup(&self) -> (r: Self)
        ensures
            r@ == self@,
    {
        *self
    }
}

/// The map an entry sequence stands for; a later entry wins over an earlier
/// one with the same key.
pub open spec fn map_of<K: MapKey, V: View>(s: Seq<(K, V)>) -> Map<K::V, V::V>
    decreases s.len(),
{
    if s.len() == 0 {
        Map::empty()
    } else {
        map_of(s.drop_last()).insert(s.last().0@, s.last().1@)
    }
}

/// Whether the keys of an entry sequence are pairwise distinct.
pub open spec fn keys_distinct<K: MapKey, V: View>(s: Seq<(K, V)>) -> bool {
    forall|i: int, j: int| 0 <= i < j < s.len() ==> s[i].0@ != s[j].0@
}

pub proof fn lemma_map_of_domain<K: MapKey, V: View>(s: Seq<(K, V)>, k: K::V)
    ensures
        map_of(s).contains_key(k) <==> exists|i: int| 0 <= i < s.len() && s[i].0@ == k,
    decreases s.len(),
{
    if s.len() > 0 {
        lemma_map_of_domain(s.drop_last(), k);
        if s.last().0@ == k {
            assert(s[s.len() - 1].0@ == k);
        } else {
            assert(map_of(s).contains_key(k) <==> map_of(s.drop_last()).contains_key(k));
            assert forall|i: int| 0 <= i < s.len() && s[i].0@ == k implies 0 <= i < s.len() - 1
                && s.drop_last()[i].0@ == k by {
                assert(s[s.len() - 1].0@ != k);
            }
        }
    }
}

pub proof fn lemma_map_of_get<K: MapKey, V: View>(s: Seq<(K, V)>, i: int)
    requires
        keys_distinct(s),
        0 <= i < s.len(),
    ensures
        map_of(s).contains_key(s[i].0@),
        map_of(s)[s[i].0@] == s[i].1@,
    decreases s.len(),
{
    if i == s.len() - 1 {
    } else {
        assert(keys_distinct(s.drop_last()));
        lemma_map_of_get(s.drop_last(), i);
        assert(s.drop_last()[i] == s[i]);
        assert(s[i].0@ != s.last().0@);
    }
}

pub proof fn lemma_map_of_update<K: MapKey, V: View>(s: Seq<(K, V)>, i: int, e: (K, V))
    requires
        keys_distinct(s),
        0 <= i < s.len(),
        e.0@ == s[i].0@,
    ensures
        keys_distinct(s.update(i, e)),
        map_of(s.update(i, e)) == map_of(s).insert(e.0@, e.1@),
    decreases s.len(),
{
    let t = s.update(i, e);
    assert forall|a: int, b: int| 0 <= a < b < t.len() implies t[a].0@ != t[b].0@ by {
        assert(s[a].0@ != s[b].0@);
    }
    if i == s.len() - 1 {
        assert(t.drop_last() =~= s.drop_last());
        assert(t.last() == e);
        assert(map_of(t) == map_of(s.drop_last()).insert(e.0@, e.1@));
        assert(map_of(s.drop_last()).insert(s.last().0@, s.last().1@).insert(e.0@, e.1@)
            =~= map_of(s.drop_last()).insert(e.0@, e.1@));
    } else {
        assert(keys_distinct(s.drop_last()));
        assert(s.drop_last()[i] == s[i]);
        lemma_map_of_update(s.drop_last(), i, e);
        assert(t.drop_last() =~= s.drop_last().update(i, e));
        assert(t.last() == s.last());
        assert(map_of(t) == map_of(s.drop_last()).insert(e.0@, e.1@).insert(
            s.last().0@,
            s.last().1@,
        ));
        assert(s[i].0@ != s.last().0@);
        assert(map_of(s.drop_last()).insert(e.0@, e.1@).insert(s.last().0@, s.last().1@)
            =~= map_of(s.drop_last()).insert(s.last().0@, s.last().1@).insert(e.0@, e.1@));
    }
}

pub proof fn lemma_map_of_push<K: MapKey, V: View>(s: Seq<(K, V)>, e: (K, V))
    requires
        keys_distinct(s),
        forall|i: int| 0 <= i < s.len() ==> s[i].0@ != e.0@,
    ensures
        keys_distinct(s.push(e)),
        map_of(s.push(e)) == map_of(s).insert(e.0@, e.1@),
{
    let t = s.push(e);
    assert(t.drop_last() =~= s);
    assert(t.last() == e);
    assert forall|a: int, b: int| 0 <= a < b < t.len() implies t[a].0@ != t[b].0@ by {
        if b < t.len() - 1 {
            assert(s[a].0@ != s[b].0@);
        } else {
            assert(s[a].0@ != e.0@);
        }
    }
}

pub proof fn lemma_map_of_remove<K: MapKey, V: View>(s: Seq<(K, V)>, i: int)
    requires
        keys_distinct(s),
        0 <= i < s.len(),
    ensures
        keys_distinct(s.remove(i)),
        map_of(s.remove(i)) == map_of(s).remove(s[i].0@),
    decreases s.len(),
{
    let t = s.remove(i);
    assert forall|a: int, b: int| 0 <= a < b < t.len() implies t[a].0@ != t[b].0@ by {
        let a0 = if a < i {
            a
        } else {
            a + 1
        };
        let b0 = if b < i {
            b
        } else {
            b + 1
        };
        assert(t[a] == s[a0] && t[b] == s[b0]);
        assert(s[a0].0@ != s[b0].0@);
    }
    if i == s.len() - 1 {
        assert(t =~= s.drop_last());
        lemma_map_of_domain(s.drop_last(), s[i].0@);
        assert forall|j: int| 0 <= j < s.len() - 1 implies s.drop_last()[j].0@ != s[i].0@ by {
            assert(s[j].0@ != s[i].0@);
        }
        assert(!map_of(s.drop_last()).contains_key(s[i].0@));
        assert(map_of(t) =~= map_of(s).remove(s[i].0@));
    } else {
        assert(keys_distinct(s.drop_last()));
        assert(s.drop_last()[i] == s[i]);
        lemma_map_of_remove(s.drop_last(), i);
        assert(t.drop_last() =~= s.drop_last().remove(i));
        assert(t.last() == s.last());
        assert(map_of(t) == map_of(s.drop_last()).remove(s[i].0@).insert(
            s.last().0@,
            s.last().1@,
        ));
        assert(s[i].0@ != s.last().0@);
        assert(map_of(s.drop_last()).remove(s[i].0@).insert(s.last().0@, s.last().1@)
            =~= map_of(s.drop_last()).insert(s.last().0@, s.last().1@).remove(s[i].0@));
    }
}

/// Two entry sequences whose keys and values agree pairwise at the
/// specification level stand for the same map.
pub proof fn lemma_map_of_congruence<K: MapKey, V: View>(s: Seq<(K, V)>, t: Seq<(K, V)>)
    requires
        s.len() == t.len(),
        forall|i: int| 0 <= i < s.len() ==> s[i].0@ == t[i].0@ && s[i].1@ == t[i].1@,
    ensures
        map_of(s) == map_of(t),
        keys_distinct(s) == keys_distinct(t),
    decreases s.len(),
{
    if s.len() > 0 {
        lemma_map_of_congruence(s.drop_last(), t.drop_last());
        assert(map_of(s) =~= map_of(t));
    }
    assert(keys_distinct(s) == keys_distinct(t));
}

/// An association map with pairwise-distinct keys.
pub struct AssocMap<K, V> {
    entries: Vec<(K, V)>,
}

impl<K: MapKey, V: View> View for AssocMap<K, V> {
    type V = Map<K::V, V::V>;

    closed spec fn view(&self) -> Map<K::V, V::V> {
        map_of(self.entries@)
    }
}

impl<K: MapKey, V: View> AssocMap<K, V> {
    /// The entries in insertion order.
    pub closed spec fn entry_seq(&self) -> Seq<(K, V)> {
        self.entries@
    }

    pub closed spec fn wf(&self) -> bool {
        keys_distinct(self.entries@)
    }

    pub fn new() -> (r: Self)
        ensures
            r.wf(),
            r@ == Map::<K::V, V::V>::empty(),
            r.entry_seq() == Seq::<(K, V)>::empty(),
    {
        AssocMap { entries: Vec::new() }
    }

    pub fn len(&self) -> (r: usize)
        ensures
            r == self.entry_seq().len(),
    {
        self.entries.len()
    }

    pub fn is_empty(&self) -> (r: bool)
        requires
            self.wf(),
        ensures
            r == (self@ =~= Map::<K::V, V::V>::empty()),
            r == (self.entry_seq().len() == 0),
    {
        proof {
            if self.entries@.len() > 0 {
                lemma_map_of_get(self.entries@, 0);
            }
        }
        self.entries.len() == 0
    }

    /// Each entry is a member of the map.
    pub proof fn lemma_entry_is_member(&self, i: int)
        requires
            self.wf(),
            0 <= i < self.entry_seq().len(),
        ensures
            self@.contains_key(self.entry_seq()[i].0@),
            self@[self.entry_seq()[i].0@] == self.entry_seq()[i].1@,
    {
        lemma_map_of_get(self.entries@, i);
    }

    /// The domain of the map is exactly the keys of the entries.
    pub proof fn lemma_domain(&self, k: K::V)
        ensures
            self@.contains_key(k) <==> exists|i: int|
                0 <= i < self.entry_seq().len() && self.entry_seq()[i].0@ == k,
    {
        lemma_map_of_domain(self.entries@, k);
        if self@.contains_key(k) {
            let i = choose|i: int| 0 <= i < self.entries@.len() && self.entries@[i].0@ == k;
            assert(0 <= i < self.entry_seq().len() && self.entry_seq()[i].0@ == k);
        }
        if exists|i: int| 0 <= i < self.entry_seq().len() && self.entry_seq()[i].0@ == k {
            let i = choose|i: int|
                0 <= i < self.entry_seq().len() && self.entry_seq()[i].0@ == k;
            assert(0 <= i < self.entries@.len() && self.entries@[i].0@ == k);
        }
    }

    /// The entry at a position, for deterministic iteration.
    pub fn entry_at(&self, i: usize) -> (r: (&K, &V))
        requires
            self.wf(),
            i < self.entry_seq().len(),
        ensures
            r.0@ == self.entry_seq()[i as int].0@,
            r.1@ == self.entry_seq()[i as int].1@,
            self@.contains_key(r.0@),
            self@[r.0@] == r.1@,
    {
        proof {
            lemma_map_of_get(self.entries@, i as int);
        }
        (&self.entries[i].0, &self.entries[i].1)
    }

    pub fn contains_key(&self, k: &K) -> (r: bool)
        requires
            self.wf(),
        ensures
            r == self@.contains_key(k@),
    {
        let mut i: usize = 0;
        while i < self.entries.len()
            invariant
                self.wf(),
                i <= self.entries@.len(),
                forall|j: int| 0 <= j < i ==> self.entries@[j].0@ != k@,
            decreases self.entries@.len() - i,
        {
            if self.entries[i].0.key_eq(k) {
                proof {
                    lemma_map_of_get(self.entries@, i as int);
                }
                return true;
            }
            i = i + 1;
        }
        proof {
            lemma_map_of_domain(self.entries@, k@);
        }
        false
    }

    pub fn get(&self, k: &K) -> (r: Option<&V>)
        requires
            self.wf(),
        ensures
            match r {
                Some(v) => self@.contains_key(k@) && v@ == self@[k@] && (exists|j: int|
                    0 <= j < self.entry_seq().len() && self.entry_seq()[j].1 == *v),
                None => !self@.contains_key(k@),
            },
    {
        let mut i: usize = 0;
        while i < self.entries.len()
            invariant
                self.wf(),
                i <= self.entries@.len(),
                forall|j: int| 0 <= j < i ==> self.entries@[j].0@ != k@,
            decreases self.entries@.len() - i,
        {
            if self.entries[i].0.key_eq(k) {
                proof {
                    lemma_map_of_get(self.entries@, i as int);
                    assert(self.entry_seq()[i as int].1 == self.entries@[i as int].1);
                }
                return Some(&self.entries[i].1);
            }
            i = i + 1;
        }
        proof {
            lemma_map_of_domain(self.entries@, k@);
        }
        None
    }

    pub fn insert(&mut self, k: K, v: V)
        requires
            old(self).wf(),
        ensures
            final(self).wf(),
            final(self)@ == old(self)@.insert(k@, v@),
            (exists|i: int|
                0 <= i < old(self).entry_seq().len() && old(self).entry_seq()[i].0@ == k@
                    && final(self).entry_seq() == old(self).entry_seq().update(i, (k, v)))
                || final(self).entry_seq() == old(self).entry_seq().push((k, v)),
    {
        let ghost gk = k@;
        let mut i: usize = 0;
        while i < self.entries.len()
            invariant
                self.wf(),
                i <= self.entries@.len(),
                forall|j: int| 0 <= j < i ==> self.entries@[j].0@ != gk,
                k@ == gk,
                self.entries@ == old(self).entry_seq(),
            decreases self.entries@.len() - i,
        {
            if self.entries[i].0.key_eq(&k) {
                proof {
                    lemma_map_of_update(self.entries@, i as int, (k, v));
                }
                self.entries[i] = (k, v);
                return ;
            }
            i = i + 1;
        }
        proof {
            lemma_map_of_push(self.entries@, (k, v));
        }
        self.entries.push((k, v));
    }

    pub fn remove_entry(&mut self, k: &K) -> (r: Option<(K, V)>)
        requires
            old(self).wf(),
        ensures
            final(self).wf(),
            final(self)@ == old(self)@.remove(k@),
            match r {
                Some(e) => old(self)@.contains_key(k@) && e.0@ == k@ && e.1@ == old(self)@[k@]
                    && (exists|i: int|
                    0 <= i < old(self).entry_seq().len() && old(self).entry_seq()[i] == e
                        && final(self).entry_seq() == old(self).entry_seq().remove(i)),
                None => !old(self)@.contains_key(k@) && *final(self) == *old(self),
            },
    {
        let mut i: usize = 0;
        while i < self.entries.len()
            invariant
                self.wf(),
                i <= self.entries@.len(),
                forall|j: int| 0 <= j < i ==> self.entries@[j].0@ != k@,
                *self == *old(self),
            decreases self.entries@.len() - i,
        {
            if self.entries[i].0.key_eq(k) {
                proof {
                    lemma_map_of_get(self.entries@, i as int);
                    lemma_map_of_remove(self.entries@, i as int);
                }
                let e = self.entries.remove(i);
                proof {
                    assert(old(self).entry_seq()[i as int] == e);
                    assert(self.entry_seq() == old(self).entry_seq().remove(i as int));
                }
                return Some(e);
            }
            i = i + 1;
        }
        proof {
            lemma_map_of_domain(self.entries@, k@);
            assert(old(self)@.remove(k@) =~= old(self)@);
        }
        None
    }

    /// A copy of the map, with the same abstract value.
    pub fn dup(&self) -> (r: Self) where V: DupValue
        ensures
            r.wf() == self.wf(),
            r@ == self@,
    {
        let mut entries: Vec<(K, V)> = Vec::new();
        let mut i: usize = 0;
        while i < self.entries.len()
            invariant
                i <= self.entries@.len(),
                entries@.len() == i,
                forall|j: int|
                    0 <= j < i ==> entries@[j].0@ == self.entries@[j].0@ && entries@[j].1@
                        == self.entries@[j].1@,
            decreases self.entries@.len() - i,
        {
            let k = self.entries[i].0.key_dup();
            let v = self.entries[i].1.dup();
            entries.push((k, v));
            i = i + 1;
        }
        proof {
            lemma_map_of_congruence(entries@, self.entries@);
        }
        AssocMap { entries }
    }

    /// Hands the entries out, in insertion order.
    pub fn into_entries(self) -> (r: Vec<(K, V)>)
        requires
            self.wf(),
        ensures
            r@ == self.entry_seq(),
            keys_distinct(r@),
            map_of(r@) == self@,
    {
        self.entries
    }
}

/// An insertion-ordered set of keys with pairwise-distinct abstract values.
pub struct AssocSet<K> {
    items: Vec<K>,
}

impl<K: MapKey> View for AssocSet<K> {
    type V = Set<K::V>;

    closed spec fn view(&self) -> Set<K::V> {
        self.seq().to_set()
    }
}

impl<K: MapKey> AssocSet<K> {
    /// The members' abstract values, in insertion order.
    pub closed spec fn seq(&self) -> Seq<K::V> {
        self.items@.map(|i: int, k: K| k@)
    }

    pub closed spec fn wf(&self) -> bool {
        forall|i: int, j: int|
            0 <= i < j < self.items@.len() ==> self.items@[i]@ != self.items@[j]@
    }

    /// A well-formed set is finite, with as many members as its sequence.
    pub proof fn lemma_card(&self)
        requires
            self.wf(),
        ensures
            self@.finite(),
            self@.len() == self.seq().len(),
    {
        assert(self.seq().no_duplicates());
        self.seq().unique_seq_to_set();
    }

    pub proof fn lemma_seq_members(&self)
        ensures
            forall|i: int| 0 <= i < self.seq().len() ==> self@.contains(#[trigger] self.seq()[i]),
            forall|k: K::V| self@.contains(k) ==> exists|i: int|
                0 <= i < self.seq().len() && self.seq()[i] == k,
    {
        assert forall|i: int| 0 <= i < self.seq().len() implies self@.contains(
            #[trigger] self.seq()[i],
        ) by {
            assert(self.items@[i]@ == self.seq()[i]);
        }
        assert forall|k: K::V| self@.contains(k) implies exists|i: int|
            0 <= i < self.seq().len() && self.seq()[i] == k by {
            let i = choose|i: int| 0 <= i < self.items@.len() && self.items@[i]@ == k;
            assert(self.seq()[i] == k);
        }
    }

    pub fn new() -> (r: Self)
        ensures
            r.wf(),
            r@ == Set::<K::V>::empty(),
            r.seq() == Seq::<K::V>::empty(),
    {
        let r = AssocSet { items: Vec::new() };
        proof {
            assert(r.seq() =~= Seq::<K::V>::empty());
            assert forall|x: K::V| !r@.contains(x) by {
                if r.seq().contains(x) {
                    let i = choose|i: int| 0 <= i < r.seq().len() && r.seq()[i] == x;
                }
            }
            assert(r@ =~= Set::<K::V>::empty());
        }
        r
    }

    pub fn len(&self) -> (r: usize)
        ensures
            r == self.seq().len(),
    {
        self.items.len()
    }

    pub fn contains(&self, k: &K) -> (r: bool)
        ensures
            r == self@.contains(k@),
    {
        let mut i: usize = 0;
        while i < self.items.len()
            invariant
                i <= self.items@.len(),
                forall|j: int| 0 <= j < i ==> self.items@[j]@ != k@,
            decreases self.items@.len() - i,
        {
            if self.items[i].key_eq(k) {
                proof {
                    assert(self.seq()[i as int] == k@);
                    assert(self.seq().contains(k@));
                }
                return true;
            }
            i = i + 1;
        }
        proof {
            if self@.contains(k@) {
                let i = choose|i: int| 0 <= i < self.seq().len() && self.seq()[i] == k@;
                assert(self.items@[i]@ == k@);
            }
        }
        false
    }

    /// Adds a key; a key already present is left where it is.
    pub fn insert(&mut self, k: K)
        requires
            old(self).wf(),
        ensures
            final(self).wf(),
            final(self)@ == old(self)@.insert(k@),
            old(self)@.contains(k@) ==> final(self).seq() == old(self).seq(),
            !old(self)@.contains(k@) ==> final(self).seq() == old(self).seq().push(k@),
    {
        if self.contains(&k) {
            proof {
                assert(self@ =~= old(self)@.insert(k@));
            }
            return ;
        }
        proof {
            assert forall|i: int| 0 <= i < old(self).items@.len() implies old(
                self,
            ).items@[i]@ != k@ by {
                if old(self).items@[i]@ == k@ {
                    assert(old(self).seq()[i] == k@);
                    assert(old(self).seq().contains(k@));
                }
            }
        }
        self.items.push(k);
        proof {
            let n = old(self).items@.len() as int;
            assert forall|i: int| 0 <= i < self.seq().len() implies self.seq()[i]
                == old(self).seq().push(k@)[i] by {
                assert(self.seq()[i] == self.items@[i]@);
            }
            assert(self.seq() =~= old(self).seq().push(k@));
            assert forall|x: K::V| self@.contains(x) implies old(self)@.insert(k@).contains(
                x,
            ) by {
                let i = choose|i: int| 0 <= i < self.seq().len() && self.seq()[i] == x;
                if i < n {
                    assert(old(self).seq()[i] == x);
                    assert(old(self).seq().contains(x));
                }
            }
            assert forall|x: K::V| old(self)@.insert(k@).contains(x) implies self@.contains(
                x,
            ) by {
                if x == k@ {
                    assert(self.seq()[n] == x);
                    assert(self.seq().contains(x));
                } else {
                    let i = choose|i: int|
                        0 <= i < old(self).seq().len() && old(self).seq()[i] == x;
                    assert(self.seq()[i] == x);
                    assert(self.seq().contains(x));
                }
            }
            assert(self@ =~= old(self)@.insert(k@));
        }
    }

    /// Adds every member of `other`, provided none is already present; an
    /// overlap leaves this set untouched.
    #[verifier::loop_isolation(false)]
    pub fn union_disjoint(&mut self, other: AssocSet<K>) -> (r: bool)
        requires
            old(self).wf(),
            other.wf(),
        ensures
            final(self).wf(),
            r == (forall|x: K::V| !(old(self)@.contains(x) && other@.contains(x))),
            r ==> final(self)@ == old(self)@.union(other@),
            !r ==> *final(self) == *old(self),
    {
        let n = other.len();
        let mut i: usize = 0;
        while i < n
            invariant
                self.wf(),
                other.wf(),
                n == other.seq().len(),
                i <= n,
                *self == *old(self),
                forall|j: int| 0 <= j < i ==> !self@.contains(#[trigger] other.seq()[j]),
            decreases n - i,
        {
            if self.contains(other.get_at(i)) {
                proof {
                    other.lemma_seq_members();
                    assert(other@.contains(other.seq()[i as int]));
                }
                return false;
            }
            i = i + 1;
        }
        proof {
            other.lemma_seq_members();
            assert forall|x: K::V| !(self@.contains(x) && other@.contains(x)) by {
                if other@.contains(x) {
                    let j = choose|j: int|
                        0 <= j < other.seq().len() && other.seq()[j] == x;
                }
            }
        }
        let items = other.to_key_vec();
        let ghost pre = self@;
        let ghost pre_other = other@;
        let mut i: usize = 0;
        while i < items.len()
            invariant
                self.wf(),
                other.wf(),
                items@.len() == other.seq().len(),
                forall|j: int| 0 <= j < items@.len() ==> items@[j]@ == other.seq()[j],
                i <= items@.len(),
                pre_other == other@,
                forall|x: K::V|
                    self@.contains(x) <==> (pre.contains(x) || (exists|j: int|
                        0 <= j < i && other.seq()[j] == x)),
            decreases items@.len() - i,
        {
            let k = items[i].key_dup();
            let ghost before = self@;
            self.insert(k);
            proof {
                assert forall|x: K::V|
                    self@.contains(x) implies (pre.contains(x) || (exists|j: int|
                    0 <= j < i + 1 && other.seq()[j] == x)) by {
                    if x == items@[i as int]@ {
                        assert(other.seq()[i as int] == x);
                        assert(exists|j: int| 0 <= j < i + 1 && other.seq()[j] == x);
                    } else {
                        assert(before.contains(x));
                        if !pre.contains(x) {
                            let j = choose|j: int| 0 <= j < i && other.seq()[j] == x;
                            assert(0 <= j < i + 1 && other.seq()[j] == x);
                        }
                    }
                }
                assert forall|x: K::V|
                    (pre.contains(x) || (exists|j: int|
                        0 <= j < i + 1 && other.seq()[j] == x)) implies self@.contains(x) by {
                    if pre.contains(x) {
                        assert(before.contains(x));
                        assert(self@ == before.insert(items@[i as int]@));
                    } else {
                        let j = choose|j: int| 0 <= j < i + 1 && other.seq()[j] == x;
                        if j < i {
                            assert(exists|jj: int| 0 <= jj < i && other.seq()[jj] == x);
                            assert(before.contains(x));
                            assert(self@ == before.insert(items@[i as int]@));
                        } else {
                            assert(x == items@[i as int]@);
                            assert(self@ == before.insert(x));
                        }
                    }
                }
                assert(forall|x: K::V|
                    self@.contains(x) <==> (pre.contains(x) || (exists|j: int|
                        0 <= j < i + 1 && other.seq()[j] == x)));
            }
            i = i + 1;
        }
        proof {
            other.lemma_seq_members();
            assert forall|x: K::V| self@.contains(x) <==> pre.union(pre_other).contains(
                x,
            ) by {
                if other@.contains(x) {
                    let j = choose|j: int|
                        0 <= j < other.seq().len() && other.seq()[j] == x;
                }
                if exists|j: int| 0 <= j < items@.len() && other.seq()[j] == x {
                    let j = choose|j: int| 0 <= j < items@.len() && other.seq()[j] == x;
                    assert(other@.contains(other.seq()[j]));
                }
            }
            assert(self@ =~= pre.union(pre_other));
        }
        true
    }

    /// Removes the members under a key sequence, provided the keys are
    /// pairwise distinct and all present; otherwise nothing changes.
    #[verifier::loop_isolation(false)]
    pub fn remove_seq(&mut self, keys: &Vec<K>) -> (r: bool)
        requires
            old(self).wf(),
        ensures
            final(self).wf(),
            ({
                let kv = keys@.map(|i: int, k: K| k@);
                if kv.no_duplicates() && (forall|i: int|
                    0 <= i < kv.len() ==> old(self)@.contains(#[trigger] kv[i])) {
                    r && final(self)@ == old(self)@.difference(kv.to_set())
                } else {
                    !r && *final(self) == *old(self)
                }
            }),
    {
        let ghost kv = keys@.map(|i: int, k: K| k@);
        let n = keys.len();
        let mut i: usize = 0;
        while i < n
            invariant
                i <= n,
                forall|a: int, b: int| 0 <= a < b < i ==> kv[a] != kv[b],
                forall|a: int| 0 <= a < i ==> self@.contains(#[trigger] kv[a]),
            decreases n - i,
        {
            if !self.contains(&keys[i]) {
                proof {
                    assert(!self@.contains(kv[i as int]));
                }
                return false;
            }
            let mut j: usize = 0;
            while j < i
                invariant
                    j <= i < n,
                    forall|a: int| 0 <= a < j ==> kv[a] != kv[i as int],
                decreases i - j,
            {
                if keys[j].key_eq(&keys[i]) {
                    proof {
                        assert(kv[j as int] == kv[i as int]);
                        assert(!kv.no_duplicates());
                    }
                    return false;
                }
                j = j + 1;
            }
            i = i + 1;
        }
        let ghost pre = self@;
        let mut i: usize = 0;
        while i < n
            invariant
                self.wf(),
                i <= n,
                forall|x: K::V| #![all_triggers]
                    self@.contains(x) <==> (pre.contains(x) && !(exists|j: int|
                        0 <= j < i && kv[j] == x)),
            decreases n - i,
        {
            let ghost before = self@;
            self.remove(&keys[i]);
            proof {
                assert forall|x: K::V|
                    self@.contains(x) implies (pre.contains(x) && !(exists|j: int|
                    0 <= j < i + 1 && kv[j] == x)) by {
                    assert(before.contains(x));
                    if exists|j: int| 0 <= j < i + 1 && kv[j] == x {
                        let j = choose|j: int| 0 <= j < i + 1 && kv[j] == x;
                        if j < i {
                            assert(!before.contains(x));
                        } else {
                            assert(x == kv[i as int]);
                        }
                    }
                }
                assert forall|x: K::V|
                    (pre.contains(x) && !(exists|j: int| 0 <= j < i + 1 && kv[j] == x))
                    implies self@.contains(x) by {
                    assert(!(exists|j: int| 0 <= j < i && kv[j] == x));
                    assert(before.contains(x));
                    assert(x != kv[i as int]);
                }
            }
            i = i + 1;
        }
        proof {
            assert forall|x: K::V| self@.contains(x) == pre.difference(kv.to_set()).contains(
                x,
            ) by {
                if kv.to_set().contains(x) {
                    let j = choose|j: int| 0 <= j < kv.len() && kv[j] == x;
                }
                if exists|j: int| 0 <= j < n && kv[j] == x {
                    let j = choose|j: int| 0 <= j < n && kv[j] == x;
                    assert(kv.to_set().contains(x));
                }
            }
            assert(self@ =~= pre.difference(kv.to_set()));
        }
        true
    }

    /// A copy of the set, with the same members in the same order.
    pub fn dup(&self) -> (r: Self)
        ensures
            r@ == self@,
            r.seq() == self.seq(),
            r.wf() == self.wf(),
    {
        let mut items: Vec<K> = Vec::new();
        let mut i: usize = 0;
        while i < self.items.len()
            invariant
                i <= self.items@.len(),
                items@.len() == i,
                forall|j: int| 0 <= j < i ==> items@[j]@ == self.items@[j]@,
            decreases self.items@.len() - i,
        {
            items.push(self.items[i].key_dup());
            i = i + 1;
        }
        let r = AssocSet { items };
        proof {
            assert forall|j: int| 0 <= j < r.seq().len() implies r.seq()[j]
                == self.seq()[j] by {
                assert(r.items@[j]@ == self.items@[j]@);
            }
            assert(r.seq() =~= self.seq());
            if self.wf() {
                assert forall|a: int, b: int| 0 <= a < b < r.items@.len() implies r.items@[a]@
                    != r.items@[b]@ by {
                    assert(self.items@[a]@ != self.items@[b]@);
                }
            }
            if r.wf() {
                assert forall|a: int, b: int|
                    0 <= a < b < self.items@.len() implies self.items@[a]@
                    != self.items@[b]@ by {
                    assert(r.items@[a]@ != r.items@[b]@);
                }
            }
        }
        r
    }

    /// The members as owned keys, in insertion order.
    pub fn to_key_vec(&self) -> (r: Vec<K>)
        ensures
            r@.len() == self.seq().len(),
            forall|i: int| 0 <= i < r@.len() ==> r@[i]@ == self.seq()[i],
    {
        let mut items: Vec<K> = Vec::new();
        let mut i: usize = 0;
        while i < self.items.len()
            invariant
                i <= self.items@.len(),
                items@.len() == i,
                forall|j: int| 0 <= j < i ==> items@[j]@ == self.items@[j]@,
            decreases self.items@.len() - i,
        {
            items.push(self.items[i].key_dup());
            i = i + 1;
        }
        items
    }

    /// Takes one member out, if it is there.
    pub fn remove(&mut self, k: &K) -> (r: bool)
        requires
            old(self).wf(),
        ensures
            final(self).wf(),
            r == old(self)@.contains(k@),
            final(self)@ == old(self)@.remove(k@),
            !r ==> *final(self) == *old(self),
    {
        let mut i: usize = 0;
        while i < self.items.len()
            invariant
                self.wf(),
                i <= self.items@.len(),
                forall|j: int| 0 <= j < i ==> self.items@[j]@ != k@,
                *self == *old(self),
            decreases self.items@.len() - i,
        {
            if self.items[i].key_eq(k) {
                proof {
                    assert(self.seq()[i as int] == k@);
                    assert(self.seq().contains(k@));
                }
                let ghost pre = self.items@;
                self.items.remove(i);
                proof {
                    assert forall|a: int, b: int|
                        0 <= a < b < self.items@.len() implies self.items@[a]@
                        != self.items@[b]@ by {
                        let a0 = if a < i as int {
                            a
                        } else {
                            a + 1
                        };
                        let b0 = if b < i as int {
                            b
                        } else {
                            b + 1
                        };
                        assert(self.items@[a] == pre[a0] && self.items@[b] == pre[b0]);
                        assert(pre[a0]@ != pre[b0]@);
                    }
                    assert forall|x: K::V| self@.contains(x) implies old(self)@.remove(
                        k@,
                    ).contains(x) by {
                        let a = choose|a: int|
                            0 <= a < self.seq().len() && self.seq()[a] == x;
                        let a0 = if a < i as int {
                            a
                        } else {
                            a + 1
                        };
                        assert(old(self).seq()[a0] == x);
                        assert(old(self).seq().contains(x));
                        assert(pre[a0]@ != pre[i as int]@);
                    }
                    assert forall|x: K::V| old(self)@.remove(k@).contains(x) implies
                        self@.contains(x) by {
                        let a0 = choose|a0: int|
                            0 <= a0 < old(self).seq().len() && old(self).seq()[a0] == x;
                        assert(pre[a0]@ == x);
                        assert(a0 != i as int);
                        let a = if a0 < i as int {
                            a0
                        } else {
                            a0 - 1
                        };
                        assert(self.items@[a] == pre[a0]);
                        assert(self.seq()[a] == x);
                        assert(self.seq().contains(x));
                    }
                    assert(self@ =~= old(self)@.remove(k@));
                }
                return true;
            }
            i = i + 1;
        }
        proof {
            if self@.contains(k@) {
                let a = choose|a: int| 0 <= a < self.seq().len() && self.seq()[a] == k@;
                assert(self.items@[a]@ == k@);
            }
            assert(self@ =~= old(self)@.remove(k@));
        }
        false
    }

    /// The member at a position, for deterministic iteration.
    pub fn get_at(&self, i: usize) -> (r: &K)
        requires
            i < self.seq().len(),
        ensures
            r@ == self.seq()[i as int],
            self@.contains(r@),
    {
        proof {
            assert(self.seq()[i as int] == self.items@[i as int]@);
            assert(self.seq().contains(self.seq()[i as int]));
        }
        &self.items[i]
    }
}

} // verus!
