//! Association maps over vectors, keyed by device id strings or by
//! 128-bit command/correlation ids. Lookups are specified through a
//! recursive first-match function; well-formed maps have distinct keys,
//! and every mutator preserves that.

use vstd::prelude::*;

verus! {

/// First value bound to `k`, scanning left to right.
pub open spec fn seq_get<K, V>(s: Seq<(K, V)>, k: K) -> Option<V>
    decreases s.len(),
{
    if s.len() == 0 {
        None
    } else if s[0].0 == k {
        Some(s[0].1)
    } else {
        seq_get(s.drop_first(), k)
    }
}

pub open spec fn keys_unique<K, V>(s: Seq<(K, V)>) -> bool {
    forall|i: int, j: int| 0 <= i < j < s.len() ==> s[i].0 != s[j].0
}


pub proof fn lemma_seq_get_found<K, V>(s: Seq<(K, V)>, k: K, i: int)
    requires
        0 <= i < s.len(),
        forall|j: int| 0 <= j < i ==> s[j].0 != k,
        s[i].0 == k,
    ensures
        seq_get(s, k) == Some(s[i].1),
    decreases i,
{
    if i > 0 {
        lemma_seq_get_found(s.drop_first(), k, i - 1);
    }
}

pub proof fn lemma_seq_get_update<K, V>(s: Seq<(K, V)>, i: int, p: (K, V), k: K)
    requires
        0 <= i < s.len(),
        s[i].0 == p.0,
        keys_unique(s),
    ensures
        seq_get(s.update(i, p), k) == if k == p.0 {
            Some(p.1)
        } else {
            seq_get(s, k)
        },
    decreases i,
{
    let t = s.update(i, p);
    if i == 0 {
        assert(t[0] == p);
        assert(t.drop_first() =~= s.drop_first());
        if k != p.0 {
            assert(s[0].0 != k ==> seq_get(s, k) == seq_get(s.drop_first(), k));
        }
    } else {
        assert(t[0] == s[0]);
        assert(t.drop_first() =~= s.drop_first().update(i - 1, p));
        assert(forall|a: int, b: int|
            0 <= a < b < s.drop_first().len() ==> s.drop_first()[a].0 != s.drop_first()[b].0);
        lemma_seq_get_update(s.drop_first(), i - 1, p, k);
        assert(s[0].0 != p.0);
    }
}

pub proof fn lemma_seq_get_push<K, V>(s: Seq<(K, V)>, p: (K, V), k: K)
    requires
        seq_get(s, p.0) == None::<V>,
    ensures
        seq_get(s.push(p), k) == if k == p.0 {
            Some(p.1)
        } else {
            seq_get(s, k)
        },
    decreases s.len(),
{
    if s.len() == 0 {
        assert(s.push(p)[0] == p);
        assert(s.push(p).drop_first() =~= s);
    } else {
        assert(s.push(p)[0] == s[0]);
        assert(s.push(p).drop_first() =~= s.drop_first().push(p));
        lemma_seq_get_push(s.drop_first(), p, k);
    }
}

pub proof fn lemma_seq_get_remove<K, V>(s: Seq<(K, V)>, i: int, k: K)
    requires
        0 <= i < s.len(),
        keys_unique(s),
    ensures
        seq_get(s.remove(i), k) == if k == s[i].0 {
            None
        } else {
            seq_get(s, k)
        },
    decreases i,
{
    let t = s.remove(i);
    if i == 0 {
        assert(t =~= s.drop_first());
        if k == s[0].0 {
            lemma_seq_get_absent(s.drop_first(), k, s[0].0);
        }
    } else {
        assert(t[0] == s[0]);
        assert(t.drop_first() =~= s.drop_first().remove(i - 1));
        assert(forall|a: int, b: int|
            0 <= a < b < s.drop_first().len() ==> s.drop_first()[a].0 != s.drop_first()[b].0);
        lemma_seq_get_remove(s.drop_first(), i - 1, k);
    }
}

/// A key bound to no entry is not found.
pub proof fn lemma_seq_get_absent<K, V>(s: Seq<(K, V)>, k: K, excl: K)
    requires
        forall|j: int| 0 <= j < s.len() ==> s[j].0 != excl,
        k == excl,
    ensures
        seq_get(s, k) == None::<V>,
    decreases s.len(),
{
    if s.len() > 0 {
        lemma_seq_get_absent(s.drop_first(), k, excl);
    }
}

/// Looking up after appending: an earlier binding wins, else the new pair.
pub proof fn lemma_seq_get_snoc<K, V>(s: Seq<(K, V)>, p: (K, V), k: K)
    ensures
        seq_get(s.push(p), k) == match seq_get(s, k) {
            Some(v) => Some(v),
            None => if p.0 == k {
                Some(p.1)
            } else {
                None
            },
        },
    decreases s.len(),
{
    if s.len() == 0 {
        assert(s.push(p)[0] == p);
        assert(s.push(p).drop_first() =~= s);
    } else {
        assert(s.push(p)[0] == s[0]);
        assert(s.push(p).drop_first() =~= s.drop_first().push(p));
        lemma_seq_get_snoc(s.drop_first(), p, k);
    }
}

/// `seq_get` finds only keys that occur in the sequence.
pub proof fn lemma_seq_get_some_position<K, V>(s: Seq<(K, V)>, k: K)
    requires
        seq_get(s, k) is Some,
    ensures
        exists|i: int| 0 <= i < s.len() && s[i].0 == k && seq_get(s, k) == Some(s[i].1),
    decreases s.len(),
{
    if s.len() > 0 {
        if s[0].0 == k {
        } else {
            lemma_seq_get_some_position(s.drop_first(), k);
            let i = choose|i: int|
                0 <= i < s.drop_first().len() && s.drop_first()[i].0 == k && seq_get(
                    s.drop_first(),
                    k,
                ) == Some(s.drop_first()[i].1);
            assert(s[i + 1].0 == k);
        }
    }
}


/// An unfound key occurs nowhere.
pub proof fn lemma_seq_get_none_no_key<K, V>(s: Seq<(K, V)>, k: K)
    requires
        seq_get(s, k) == None::<V>,
    ensures
        forall|j: int| 0 <= j < s.len() ==> s[j].0 != k,
    decreases s.len(),
{
    if s.len() > 0 {
        lemma_seq_get_none_no_key(s.drop_first(), k);
        assert(forall|j: int| 1 <= j < s.len() ==> s[j] == s.drop_first()[j - 1]);
    }
}

/// Looking up after inserting a fresh key at position `i`.
pub proof fn lemma_seq_get_insert<K, V>(s: Seq<(K, V)>, i: int, p: (K, V), k: K)
    requires
        0 <= i <= s.len(),
        seq_get(s, p.0) == None::<V>,
    ensures
        seq_get(s.insert(i, p), k) == if k == p.0 {
            Some(p.1)
        } else {
            seq_get(s, k)
        },
    decreases i,
{
    let t = s.insert(i, p);
    if i == 0 {
        assert(t[0] == p);
        assert(t.drop_first() =~= s);
        if k == p.0 {
        } else {
        }
    } else {
        assert(t[0] == s[0]);
        assert(t.drop_first() =~= s.drop_first().insert(i - 1, p));
        assert(s[0].0 != p.0);
        lemma_seq_get_insert(s.drop_first(), i - 1, p, k);
    }
}

/// Map from device-id strings to values.
pub struct StrMap<V> {
    pub vec: Vec<(String, V)>,
}

impl<V> StrMap<V> {
    /// Entries with keys as character sequences, in insertion order.
    pub open spec fn entries(self) -> Seq<(Seq<char>, V)> {
        self.vec@.map_values(|p: (String, V)| (p.0@, p.1))
    }

    pub open spec fn wf(self) -> bool {
        keys_unique(self.entries())
    }

    pub open spec fn spec_get(self, k: Seq<char>) -> Option<V> {
        seq_get(self.entries(), k)
    }

    pub open spec fn spec_len(self) -> nat {
        self.entries().len()
    }

    pub fn new() -> (r: Self)
        ensures
            r.wf(),
            r.spec_len() == 0,
            forall|k: Seq<char>| r.spec_get(k) == None::<V>,
    {
        let r = StrMap { vec: Vec::new() };
        proof {
            assert(r.entries() =~= Seq::<(Seq<char>, V)>::empty());
        }
        r
    }

    pub fn len(&self) -> (n: usize)
        ensures
            n == self.spec_len(),
    {
        self.vec.len()
    }

    /// Index of the entry bound to `k`, if any.
    fn find(&self, k: &str) -> (r: Option<usize>)
        ensures
            match r {
                Some(i) => i < self.spec_len() && self.entries()[i as int].0 == k@
                    && self.spec_get(k@) == Some(self.entries()[i as int].1),
                None => self.spec_get(k@) == None::<V>,
            },
    {
        let n: usize = self.vec.len();
        let mut i: usize = 0;
        while i < n
            invariant
                i <= n,
                n == self.vec@.len(),
                forall|j: int| 0 <= j < i ==> self.entries()[j].0 != k@,
            decreases n - i,
        {
            if crate::json::str_eq(self.vec[i].0.as_str(), k) {
                proof {
                    lemma_seq_get_found(self.entries(), k@, i as int);
                }
                return Some(i);
            }
            i = i + 1;
        }
        proof {
            lemma_seq_get_absent(self.entries(), k@, k@);
        }
        None
    }

    pub fn contains(&self, k: &str) -> (r: bool)
        ensures
            r == (self.spec_get(k@) is Some),
    {
        self.find(k).is_some()
    }

    pub fn get(&self, k: &str) -> (r: Option<&V>)
        ensures
            match r {
                Some(v) => self.spec_get(k@) == Some(*v),
                None => self.spec_get(k@) == None::<V>,
            },
    {
        match self.find(k) {
            Some(i) => Some(&self.vec[i].1),
            None => None,
        }
    }

    /// Bind `k` to `v`, replacing any existing binding.
    pub fn set(&mut self, k: String, v: V)
        requires
            old(self).wf(),
        ensures
            final(self).wf(),
            forall|k2: Seq<char>| final(self).spec_get(k2) == if k2 == k@ {
                Some(v)
            } else {
                old(self).spec_get(k2)
            },
            old(self).spec_get(k@) is Some ==> final(self).spec_len() == old(self).spec_len(),
            old(self).spec_get(k@) is None ==> final(self).spec_len() == old(self).spec_len() + 1,
    {
        let found = self.find(k.as_str());
        match found {
            Some(i) => {
                self.vec[i] = (k, v);
                proof {
                    assert(self.entries() =~= old(self).entries().update(
                        i as int,
                        (k@, v),
                    ));
                    assert forall|k2: Seq<char>| true implies self.spec_get(k2) == (if k2 == k@ {
                        Some(v)
                    } else {
                        old(self).spec_get(k2)
                    }) by {
                        lemma_seq_get_update(old(self).entries(), i as int, (k@, v), k2);
                    }
                }
            }
            None => {
                self.vec.push((k, v));
                proof {
                    assert(self.entries() =~= old(self).entries().push((k@, v)));
                    assert forall|k2: Seq<char>| true implies self.spec_get(k2) == (if k2 == k@ {
                        Some(v)
                    } else {
                        old(self).spec_get(k2)
                    }) by {
                        lemma_seq_get_push(old(self).entries(), (k@, v), k2);
                    }
                    assert forall|a: int, b: int|
                        0 <= a < b < self.entries().len() implies self.entries()[a].0
                        != self.entries()[b].0 by {
                        if b == self.entries().len() - 1 {
                            lemma_seq_get_found(old(self).entries(), old(self).entries()[a].0, a);
                        }
                    }
                }
            }
        }
    }

    /// Key of the `i`-th entry.
    pub fn key_at(&self, i: usize) -> (r: &String)
        requires
            i < self.spec_len(),
        ensures
            r@ == self.entries()[i as int].0,
    {
        &self.vec[i].0
    }

    /// Value of the `i`-th entry.
    pub fn val_at(&self, i: usize) -> (r: &V)
        requires
            i < self.spec_len(),
        ensures
            *r == self.entries()[i as int].1,
    {
        &self.vec[i].1
    }

    /// Index of the entry bound to `k`, if any.
    pub fn index_of(&self, k: &str) -> (r: Option<usize>)
        ensures
            match r {
                Some(i) => i < self.spec_len() && self.entries()[i as int].0 == k@
                    && self.spec_get(k@) == Some(self.entries()[i as int].1),
                None => self.spec_get(k@) == None::<V>,
            },
    {
        self.find(k)
    }

    /// Take the `i`-th entry out, closing the gap.
    pub fn remove_at_take(&mut self, i: usize) -> (r: (String, V))
        requires
            old(self).wf(),
            i < old(self).spec_len(),
        ensures
            final(self).wf(),
            final(self).entries() == old(self).entries().remove(i as int),
            r.0@ == old(self).entries()[i as int].0,
            r.1 == old(self).entries()[i as int].1,
    {
        let r = self.vec.remove(i);
        proof {
            assert(self.entries() =~= old(self).entries().remove(i as int));
            assert forall|a: int, b: int|
                0 <= a < b < self.entries().len() implies self.entries()[a].0
                != self.entries()[b].0 by {
                let e = old(self).entries();
                let aa: int = if a < i { a } else { a + 1 };
                let bb: int = if b < i { b } else { b + 1 };
                assert(self.entries()[a] == e[aa]);
                assert(self.entries()[b] == e[bb]);
            }
        }
        r
    }

    /// Put an entry in at position `i`; its key must be absent.
    pub fn insert_at(&mut self, i: usize, k: String, v: V)
        requires
            old(self).wf(),
            i <= old(self).spec_len(),
            old(self).spec_get(k@) == None::<V>,
        ensures
            final(self).wf(),
            final(self).entries() == old(self).entries().insert(i as int, (k@, v)),
            forall|k2: Seq<char>| final(self).spec_get(k2) == if k2 == k@ {
                Some(v)
            } else {
                old(self).spec_get(k2)
            },
    {
        proof {
            lemma_seq_get_none_no_key(old(self).entries(), k@);
        }
        self.vec.insert(i, (k, v));
        proof {
            let oe = old(self).entries();
            let ne = self.entries();
            assert(ne =~= oe.insert(i as int, (k@, v)));
            assert forall|a: int, b: int| 0 <= a < b < ne.len() implies ne[a].0 != ne[b].0 by {
                let ii = i as int;
                if a == ii {
                    assert(ne[b] == oe[b - 1]);
                } else if b == ii {
                    assert(ne[a] == oe[a]);
                } else {
                    let aa: int = if a < ii { a } else { a - 1 };
                    let bb: int = if b < ii { b } else { b - 1 };
                    assert(ne[a] == oe[aa]);
                    assert(ne[b] == oe[bb]);
                }
            }
            assert forall|k2: Seq<char>| true implies self.spec_get(k2) == (if k2 == k@ {
                Some(v)
            } else {
                old(self).spec_get(k2)
            }) by {
                lemma_seq_get_insert(oe, i as int, (k@, v), k2);
            }
        }
    }
}


/// Map from 128-bit ids to values.
pub struct IdMap<V> {
    pub vec: Vec<(u128, V)>,
}

impl<V> IdMap<V> {
    /// Entries in insertion order.
    pub open spec fn entries(self) -> Seq<(u128, V)> {
        self.vec@
    }

    pub open spec fn wf(self) -> bool {
        keys_unique(self.entries())
    }

    pub open spec fn spec_get(self, k: u128) -> Option<V> {
        seq_get(self.entries(), k)
    }

    pub open spec fn spec_len(self) -> nat {
        self.entries().len()
    }

    pub fn new() -> (r: Self)
        ensures
            r.wf(),
            r.spec_len() == 0,
            forall|k: u128| r.spec_get(k) == None::<V>,
    {
        IdMap { vec: Vec::new() }
    }

    pub fn len(&self) -> (n: usize)
        ensures
            n == self.spec_len(),
    {
        self.vec.len()
    }

    pub fn is_empty(&self) -> (r: bool)
        ensures
            r == (self.spec_len() == 0),
    {
        self.vec.len() == 0
    }

    fn find(&self, k: u128) -> (r: Option<usize>)
        ensures
            match r {
                Some(i) => i < self.spec_len() && self.entries()[i as int].0 == k
                    && self.spec_get(k) == Some(self.entries()[i as int].1),
                None => self.spec_get(k) == None::<V>,
            },
    {
        let n: usize = self.vec.len();
        let mut i: usize = 0;
        while i < n
            invariant
                i <= n,
                n == self.vec@.len(),
                forall|j: int| 0 <= j < i ==> self.entries()[j].0 != k,
            decreases n - i,
        {
            if self.vec[i].0 == k {
                proof {
                    lemma_seq_get_found(self.entries(), k, i as int);
                }
                return Some(i);
            }
            i = i + 1;
        }
        proof {
            lemma_seq_get_absent(self.entries(), k, k);
        }
        None
    }

    pub fn contains(&self, k: u128) -> (r: bool)
        ensures
            r == (self.spec_get(k) is Some),
    {
        self.find(k).is_some()
    }

    pub fn get(&self, k: u128) -> (r: Option<&V>)
        ensures
            match r {
                Some(v) => self.spec_get(k) == Some(*v),
                None => self.spec_get(k) == None::<V>,
            },
    {
        match self.find(k) {
            Some(i) => Some(&self.vec[i].1),
            None => None,
        }
    }

    /// Bind `k` to `v`, replacing any existing binding.
    pub fn set(&mut self, k: u128, v: V)
        requires
            old(self).wf(),
        ensures
            final(self).wf(),
            forall|k2: u128| final(self).spec_get(k2) == if k2 == k {
                Some(v)
            } else {
                old(self).spec_get(k2)
            },
            old(self).spec_get(k) is Some ==> final(self).spec_len() == old(self).spec_len(),
            old(self).spec_get(k) is None ==> final(self).spec_len() == old(self).spec_len() + 1,
    {
        let found = self.find(k);
        match found {
            Some(i) => {
                self.vec[i] = (k, v);
                proof {
                    assert(self.entries() =~= old(self).entries().update(i as int, (k, v)));
                    assert forall|k2: u128| true implies self.spec_get(k2) == (if k2 == k {
                        Some(v)
                    } else {
                        old(self).spec_get(k2)
                    }) by {
                        lemma_seq_get_update(old(self).entries(), i as int, (k, v), k2);
                    }
                }
            }
            None => {
                self.vec.push((k, v));
                proof {
                    assert(self.entries() =~= old(self).entries().push((k, v)));
                    assert forall|k2: u128| true implies self.spec_get(k2) == (if k2 == k {
                        Some(v)
                    } else {
                        old(self).spec_get(k2)
                    }) by {
                        lemma_seq_get_push(old(self).entries(), (k, v), k2);
                    }
                    assert forall|a: int, b: int|
                        0 <= a < b < self.entries().len() implies self.entries()[a].0
                        != self.entries()[b].0 by {
                        if b == self.entries().len() - 1 {
                            lemma_seq_get_found(old(self).entries(), old(self).entries()[a].0, a);
                        }
                    }
                }
            }
        }
    }

    /// Drop the binding of `k`, if any.
    pub fn remove(&mut self, k: u128)
        requires
            old(self).wf(),
        ensures
            final(self).wf(),
            forall|k2: u128| final(self).spec_get(k2) == if k2 == k {
                None::<V>
            } else {
                old(self).spec_get(k2)
            },
    {
        let found = self.find(k);
        match found {
            Some(i) => {
                self.vec.remove(i);
                proof {
                    assert forall|k2: u128| true implies self.spec_get(k2) == (if k2 == k {
                        None::<V>
                    } else {
                        old(self).spec_get(k2)
                    }) by {
                        lemma_seq_get_remove(old(self).entries(), i as int, k2);
                    }
                    assert forall|a: int, b: int|
                        0 <= a < b < self.entries().len() implies self.entries()[a].0
                        != self.entries()[b].0 by {
                        let e = old(self).entries();
                        let aa: int = if a < i { a } else { a + 1 };
                        let bb: int = if b < i { b } else { b + 1 };
                        assert(self.entries()[a] == e[aa]);
                        assert(self.entries()[b] == e[bb]);
                    }
                }
            }
            None => {}
        }
    }

    /// Drop every binding.
    pub fn clear(&mut self)
        ensures
            final(self).wf(),
            final(self).spec_len() == 0,
            forall|k2: u128| final(self).spec_get(k2) == None::<V>,
    {
        self.vec = Vec::new();
    }

    /// Key of the `i`-th entry.
    pub fn key_at(&self, i: usize) -> (r: u128)
        requires
            i < self.spec_len(),
        ensures
            r == self.entries()[i as int].0,
    {
        self.vec[i].0
    }

    /// Value of the `i`-th entry.
    pub fn val_at(&self, i: usize) -> (r: &V)
        requires
            i < self.spec_len(),
        ensures
            *r == self.entries()[i as int].1,
    {
        &self.vec[i].1
    }

    /// Drop the `i`-th entry.
    pub fn remove_at(&mut self, i: usize)
        requires
            old(self).wf(),
            i < old(self).spec_len(),
        ensures
            final(self).wf(),
            final(self).entries() == old(self).entries().remove(i as int),
            forall|k2: u128| final(self).spec_get(k2) == if k2 == old(
                self,
            ).entries()[i as int].0 {
                None::<V>
            } else {
                old(self).spec_get(k2)
            },
    {
        self.vec.remove(i);
        proof {
            assert forall|k2: u128| true implies self.spec_get(k2) == (if k2 == old(
                self,
            ).entries()[i as int].0 {
                None::<V>
            } else {
                old(self).spec_get(k2)
            }) by {
                lemma_seq_get_remove(old(self).entries(), i as int, k2);
            }
            assert forall|a: int, b: int|
                0 <= a < b < self.entries().len() implies self.entries()[a].0
                != self.entries()[b].0 by {
                let e = old(self).entries();
                let aa: int = if a < i { a } else { a + 1 };
                let bb: int = if b < i { b } else { b + 1 };
                assert(self.entries()[a] == e[aa]);
                assert(self.entries()[b] == e[bb]);
            }
        }
    }

    /// Take the `i`-th entry out, closing the gap.
    pub fn remove_at_take(&mut self, i: usize) -> (r: (u128, V))
        requires
            old(self).wf(),
            i < old(self).spec_len(),
        ensures
            final(self).wf(),
            final(self).entries() == old(self).entries().remove(i as int),
            r == old(self).entries()[i as int],
    {
        let r = self.vec.remove(i);
        proof {
            assert forall|a: int, b: int|
                0 <= a < b < self.entries().len() implies self.entries()[a].0
                != self.entries()[b].0 by {
                let e = old(self).entries();
                let aa: int = if a < i { a } else { a + 1 };
                let bb: int = if b < i { b } else { b + 1 };
                assert(self.entries()[a] == e[aa]);
                assert(self.entries()[b] == e[bb]);
            }
        }
        r
    }

    /// Put an entry in at position `i`; its key must be absent.
    pub fn insert_at(&mut self, i: usize, k: u128, v: V)
        requires
            old(self).wf(),
            i <= old(self).spec_len(),
            old(self).spec_get(k) == None::<V>,
        ensures
            final(self).wf(),
            final(self).entries() == old(self).entries().insert(i as int, (k, v)),
            forall|k2: u128| final(self).spec_get(k2) == if k2 == k {
                Some(v)
            } else {
                old(self).spec_get(k2)
            },
    {
        proof {
            lemma_seq_get_none_no_key(old(self).entries(), k);
        }
        self.vec.insert(i, (k, v));
        proof {
            let oe = old(self).entries();
            let ne = self.entries();
            assert(ne =~= oe.insert(i as int, (k, v)));
            assert forall|a: int, b: int| 0 <= a < b < ne.len() implies ne[a].0 != ne[b].0 by {
                let ii = i as int;
                if a == ii {
                    assert(ne[b] == oe[b - 1]);
                } else if b == ii {
                    assert(ne[a] == oe[a]);
                } else {
                    let aa: int = if a < ii { a } else { a - 1 };
                    let bb: int = if b < ii { b } else { b - 1 };
                    assert(ne[a] == oe[aa]);
                    assert(ne[b] == oe[bb]);
                }
            }
            assert forall|k2: u128| true implies self.spec_get(k2) == (if k2 == k {
                Some(v)
            } else {
                old(self).spec_get(k2)
            }) by {
                lemma_seq_get_insert(oe, i as int, (k, v), k2);
            }
        }
    }

    /// Index of the entry bound to `k`, if any.
    pub fn index_of(&self, k: u128) -> (r: Option<usize>)
        ensures
            match r {
                Some(i) => i < self.spec_len() && self.entries()[i as int].0 == k
                    && self.spec_get(k) == Some(self.entries()[i as int].1),
                None => self.spec_get(k) == None::<V>,
            },
    {
        self.find(k)
    }
}

} // verus!
