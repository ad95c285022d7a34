use vstd::prelude::*;
use crate::addr::Addr;

verus! {

/// The Session Table: client address to per-session value (in the running
/// process, the session's inbound channel). Only the dispatch loop thread
/// mutates it, so it needs no lock. Backed by a vector of pairs whose
/// addresses are pairwise distinct, and viewed as a map.
pub struct SessionTable<V> {
    entries: Vec<(Addr, V)>,
}

/// The mapping an entry sequence denotes.
pub open spec fn map_of<V>(s: Seq<(Addr, V)>) -> Map<Addr, V>
    decreases s.len(),
{
    if s.len() == 0 {
        Map::empty()
    } else {
        map_of(s.drop_last()).insert(s.last().0, s.last().1)
    }
}

/// Pairwise-distinct addresses: no client address owns two entries.
pub open spec fn distinct_addrs<V>(s: Seq<(Addr, V)>) -> bool {
    forall|i: int, j: int| 0 <= i < j < s.len() ==> s[i].0 != s[j].0
}

proof fn lemma_map_of_contains<V>(s: Seq<(Addr, V)>, a: Addr)
    ensures
        map_of(s).contains_key(a) <==> (exists|i: int| 0 <= i < s.len() && s[i].0 == a),
    decreases s.len(),
{
    if s.len() > 0 {
        lemma_map_of_contains(s.drop_last(), a);
        if s.last().0 == a {
            assert(s[s.len() - 1].0 == a);
        } else {
            if exists|i: int| 0 <= i < s.len() && s[i].0 == a {
                let i = choose|i: int| 0 <= i < s.len() && s[i].0 == a;
                assert(s.drop_last()[i].0 == a);
            }
            if map_of(s.drop_last()).contains_key(a) {
                let i = choose|i: int| 0 <= i < s.drop_last().len() && s.drop_last()[i].0 == a;
                assert(s[i].0 == a);
            }
        }
    }
}

proof fn lemma_distinct_drop_last<V>(s: Seq<(Addr, V)>)
    requires
        distinct_addrs(s),
        s.len() > 0,
    ensures
        distinct_addrs(s.drop_last()),
{
    assert forall|i: int, j: int|
        0 <= i < j < s.drop_last().len() implies s.drop_last()[i].0 != s.drop_last()[j].0 by {
        assert(s[i].0 != s[j].0);
    }
}

proof fn lemma_map_of_index<V>(s: Seq<(Addr, V)>, i: int)
    requires
        distinct_addrs(s),
        0 <= i < s.len(),
    ensures
        map_of(s).contains_key(s[i].0),
        map_of(s)[s[i].0] == s[i].1,
    decreases s.len(),
{
    if i < s.len() - 1 {
        lemma_distinct_drop_last(s);
        lemma_map_of_index(s.drop_last(), i);
        assert(s[i].0 != s.last().0);
    }
}

proof fn lemma_distinct_remove<V>(s: Seq<(Addr, V)>, i: int)
    requires
        distinct_addrs(s),
        0 <= i < s.len(),
    ensures
        distinct_addrs(s.remove(i)),
{
    s.remove_ensures(i);
    assert forall|k: int, l: int|
        0 <= k < l < s.remove(i).len() implies s.remove(i)[k].0 != s.remove(i)[l].0 by {
        let k0: int = if k < i { k } else { k + 1 };
        let l0: int = if l < i { l } else { l + 1 };
        assert(s.remove(i)[k] == s[k0]);
        assert(s.remove(i)[l] == s[l0]);
        assert(s[k0].0 != s[l0].0);
    }
}

proof fn lemma_map_of_remove<V>(s: Seq<(Addr, V)>, i: int)
    requires
        distinct_addrs(s),
        0 <= i < s.len(),
    ensures
        map_of(s.remove(i)) == map_of(s).remove(s[i].0),
    decreases s.len(),
{
    let a = s[i].0;
    s.remove_ensures(i);
    lemma_map_of_contains(s.drop_last(), a);
    if i == s.len() - 1 {
        assert(s.remove(i) =~= s.drop_last());
        assert(forall|k: int| 0 <= k < s.len() - 1 ==> s[k].0 != a);
        assert(!map_of(s.drop_last()).contains_key(a));
        assert(map_of(s).remove(a) =~= map_of(s.drop_last()));
    } else {
        lemma_distinct_drop_last(s);
        lemma_map_of_remove(s.drop_last(), i);
        assert(s.remove(i).drop_last() =~= s.drop_last().remove(i));
        assert(s.remove(i).last() == s.last());
        assert(s.last().0 != a);
        assert(map_of(s.drop_last()).remove(a).insert(s.last().0, s.last().1) =~= map_of(
            s.drop_last(),
        ).insert(s.last().0, s.last().1).remove(a));
        assert(map_of(s.remove(i)) == map_of(s.remove(i).drop_last()).insert(
            s.remove(i).last().0,
            s.remove(i).last().1,
        ));
    }
}

impl<V> SessionTable<V> {
    /// The entries, in insertion order.
    pub closed spec fn entry_seq(&self) -> Seq<(Addr, V)> {
        self.entries@
    }

    /// The mapping the table holds.
    pub open spec fn as_map(&self) -> Map<Addr, V> {
        map_of(self.entry_seq())
    }

    pub open spec fn wf(&self) -> bool {
        distinct_addrs(self.entry_seq())
    }

    pub fn new() -> (r: SessionTable<V>)
        ensures
            r.wf(),
            r.as_map() == Map::<Addr, V>::empty(),
            r.entry_seq().len() == 0,
    {
        SessionTable { entries: Vec::new() }
    }

    pub fn len(&self) -> (n: usize)
        ensures
            n == self.entry_seq().len(),
    {
        self.entries.len()
    }

    pub fn contains(&self, a: &Addr) -> (r: bool)
        ensures
            r == self.as_map().contains_key(*a),
    {
        proof {
            lemma_map_of_contains(self.entry_seq(), *a);
        }
        let n = self.entries.len();
        let mut i: usize = 0;
        while i < n
            invariant
                n == self.entry_seq().len(),
                i <= n,
                forall|j: int| 0 <= j < i ==> self.entry_seq()[j].0 != *a,
            decreases n - i,
        {
            if self.entries[i].0 == *a {
                proof {
                    assert(self.entry_seq()[i as int].0 == *a);
                    lemma_map_of_contains(self.entry_seq(), *a);
                }
                return true;
            }
            i = i + 1;
        }
        false
    }

    pub fn get(&self, a: &Addr) -> (r: Option<&V>)
        requires
            self.wf(),
        ensures
            self.as_map().contains_key(*a) ==> (r matches Some(v) && *v == self.as_map()[*a]),
            !self.as_map().contains_key(*a) ==> r is None,
    {
        proof {
            lemma_map_of_contains(self.entry_seq(), *a);
        }
        let n = self.entries.len();
        let mut i: usize = 0;
        while i < n
            invariant
                self.wf(),
                n == self.entry_seq().len(),
                i <= n,
                forall|j: int| 0 <= j < i ==> self.entry_seq()[j].0 != *a,
            decreases n - i,
        {
            if self.entries[i].0 == *a {
                proof {
                    lemma_map_of_index(self.entry_seq(), i as int);
                }
                return Some(&self.entries[i].1);
            }
            i = i + 1;
        }
        None
    }

    /// Insert a session for an address not yet in the table. The dispatch
    /// loop looks an address up (or has just evicted it) before inserting,
    /// so insertion never overwrites a live entry.
    pub fn insert(&mut self, a: Addr, v: V)
        requires
            old(self).wf(),
            !old(self).as_map().contains_key(a),
        ensures
            final(self).wf(),
            final(self).as_map() == old(self).as_map().insert(a, v),
            final(self).entry_seq() == old(self).entry_seq().push((a, v)),
    {
        proof {
            lemma_map_of_contains(self.entry_seq(), a);
        }
        self.entries.push((a, v));
        proof {
            assert(self.entries@.drop_last() =~= old(self).entries@);
            assert forall|i: int, j: int|
                0 <= i < j < self.entry_seq().len() implies self.entry_seq()[i].0
                != self.entry_seq()[j].0 by {
                if j == self.entry_seq().len() - 1 {
                    assert(old(self).entry_seq()[i].0 != a);
                }
            }
        }
    }

    /// Remove an address's entry, if one is there, and hand it back.
    /// Removing an absent address is a no-op: the expiry queue may name an
    /// address more than once, and removal is idempotent.
    pub fn remove(&mut self, a: &Addr) -> (r: Option<V>)
        requires
            old(self).wf(),
        ensures
            final(self).wf(),
            final(self).as_map() == old(self).as_map().remove(*a),
            old(self).as_map().contains_key(*a) ==> (r matches Some(v) && v == old(
                self,
            ).as_map()[*a]),
            !old(self).as_map().contains_key(*a) ==> r is None && final(self).as_map() == old(
                self,
            ).as_map(),
    {
        proof {
            lemma_map_of_contains(self.entry_seq(), *a);
        }
        let n = self.entries.len();
        let mut i: usize = 0;
        while i < n
            invariant
                self.wf(),
                self.entry_seq() == old(self).entry_seq(),
                n == self.entry_seq().len(),
                i <= n,
                forall|j: int| 0 <= j < i ==> self.entry_seq()[j].0 != *a,
            decreases n - i,
        {
            if self.entries[i].0 == *a {
                proof {
                    assert(self.entry_seq()[i as int].0 == *a);
                    lemma_map_of_index(self.entry_seq(), i as int);
                    lemma_map_of_remove(self.entry_seq(), i as int);
                    lemma_distinct_remove(self.entry_seq(), i as int);
                }
                let (_, v) = self.entries.remove(i);
                return Some(v);
            }
            i = i + 1;
        }
        proof {
            assert(!self.as_map().contains_key(*a));
            assert(self.as_map().remove(*a) =~= self.as_map());
        }
        None
    }
}

/// The Session Table never holds two entries for the same client address:
/// in a well-formed table, entries with equal addresses are one entry.
pub proof fn lemma_unique_client<V>(t: &SessionTable<V>, i: int, j: int)
    requires
        t.wf(),
        0 <= i < t.entry_seq().len(),
        0 <= j < t.entry_seq().len(),
        t.entry_seq()[i].0 == t.entry_seq()[j].0,
    ensures
        i == j,
{
}

} // verus!
