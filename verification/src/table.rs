//! Association tables keyed by 128-bit identifiers.
//!
//! The router, mixer and server key their state by user, channel or
//! endpoint. `IdTable` maps one identifier to a value; `PairTable` maps a
//! pair of identifiers. Both keep entries in insertion order in a vector
//! with unique keys, which matches the small per-room populations of the
//! data plane and keeps every operation verifiable.

use vstd::prelude::*;

verus! {

/// Table keyed by one 128-bit identifier, in insertion order.
pub struct IdTable<V> {
    /// Entries, each a key with its value; keys are unique.
    pub entries: Vec<(u128, V)>,
}

impl<V> IdTable<V> {
    /// Keys are pairwise distinct.
    pub open spec fn wf(self) -> bool {
        forall|i: int, j: int|
            0 <= i < j < self.entries@.len() ==> (#[trigger] self.entries@[i]).0
                != (#[trigger] self.entries@[j]).0
    }

    /// Whether some entry has key `k`.
    pub open spec fn spec_contains(self, k: u128) -> bool {
        exists|i: int| 0 <= i < self.entries@.len() && (#[trigger] self.entries@[i]).0 == k
    }

    /// Position of the entry with key `k`, when one exists.
    pub open spec fn spec_index_of(self, k: u128) -> int {
        choose|i: int| 0 <= i < self.entries@.len() && (#[trigger] self.entries@[i]).0 == k
    }

    /// Value stored under key `k`, if any.
    pub open spec fn spec_get(self, k: u128) -> Option<V> {
        if self.spec_contains(k) {
            Some(self.entries@[self.spec_index_of(k)].1)
        } else {
            None
        }
    }

    /// The entry at a valid position is the one its key maps to.
    pub proof fn lemma_at(self, i: int)
        requires
            self.wf(),
            0 <= i < self.entries@.len(),
        ensures
            self.spec_contains(self.entries@[i].0),
            self.spec_get(self.entries@[i].0) == Some(self.entries@[i].1),
    {
        let k = self.entries@[i].0;
        assert(self.spec_contains(k));
        let j = self.spec_index_of(k);
        assert(0 <= j < self.entries@.len() && self.entries@[j].0 == k);
        assert(j == i);
    }

    /// Creates an empty table.
    pub fn new() -> (t: IdTable<V>)
        ensures
            t.wf(),
            t.entries@.len() == 0,
            forall|k: u128| !t.spec_contains(k),
    {
        IdTable { entries: Vec::new() }
    }

    /// Number of entries.
    pub fn len(&self) -> (n: usize)
        ensures
            n == self.entries@.len(),
    {
        self.entries.len()
    }

    /// Whether the table has an entry under key `k`.
    pub fn contains_key(&self, k: u128) -> (r: bool)
        ensures
            r == self.spec_contains(k),
    {
        let n = self.entries.len();
        let mut i: usize = 0;
        while i < n
            invariant
                n == self.entries@.len(),
                i <= n,
                forall|j: int| 0 <= j < i ==> (#[trigger] self.entries@[j]).0 != k,
            decreases n - i,
        {
            if self.entries[i].0 == k {
                return true;
            }
            i = i + 1;
        }
        false
    }

    /// Borrows the value under key `k`, if any.
    pub fn get(&self, k: u128) -> (r: Option<&V>)
        requires
            self.wf(),
        ensures
            match r {
                Some(v) => self.spec_contains(k) && Some(*v) == self.spec_get(k),
                None => !self.spec_contains(k),
            },
    {
        let n = self.entries.len();
        let mut i: usize = 0;
        while i < n
            invariant
                self.wf(),
                n == self.entries@.len(),
                i <= n,
                forall|j: int| 0 <= j < i ==> (#[trigger] self.entries@[j]).0 != k,
            decreases n - i,
        {
            if self.entries[i].0 == k {
                proof {
                    self.lemma_at(i as int);
                }
                return Some(&self.entries[i].1);
            }
            i = i + 1;
        }
        None
    }

    /// Stores `v` under key `k`, replacing any previous value.
    pub fn insert(&mut self, k: u128, v: V)
        requires
            old(self).wf(),
        ensures
            final(self).wf(),
            final(self).spec_contains(k),
            final(self).spec_get(k) == Some(v),
            forall|k2: u128|
                k2 != k ==> #[trigger] final(self).spec_get(k2) == old(self).spec_get(k2),
            forall|k2: u128|
                k2 != k ==> #[trigger] final(self).spec_contains(k2) == old(self).spec_contains(
                    k2,
                ),
            final(self).entries@.len() == old(self).entries@.len() + (if old(self).spec_contains(
                k,
            ) {
                0int
            } else {
                1
            }),
    {
        let n = self.entries.len();
        let mut i: usize = 0;
        while i < n
            invariant
                self == old(self),
                old(self).wf(),
                n == self.entries@.len(),
                i <= n,
                forall|j: int| 0 <= j < i ==> (#[trigger] self.entries@[j]).0 != k,
            decreases n - i,
        {
            if self.entries[i].0 == k {
                proof {
                    old(self).lemma_at(i as int);
                }
                self.entries.set(i, (k, v));
                proof {
                    self.lemma_at(i as int);
                    assert forall|k2: u128| k2 != k implies #[trigger] final(self).spec_get(k2)
                        == old(self).spec_get(k2) by {
                        if old(self).spec_contains(k2) {
                            let j = choose|j: int|
                                0 <= j < old(self).entries@.len() && (#[trigger] old(
                                    self,
                                ).entries@[j]).0 == k2;
                            old(self).lemma_at(j);
                            self.lemma_at(j);
                        } else {
                            assert(!self.spec_contains(k2));
                        }
                    }
                    assert forall|k2: u128| k2 != k implies #[trigger] final(self).spec_contains(
                        k2,
                    ) == old(self).spec_contains(k2) by {
                        if old(self).spec_contains(k2) {
                            let j = choose|j: int|
                                0 <= j < old(self).entries@.len() && (#[trigger] old(
                                    self,
                                ).entries@[j]).0 == k2;
                            old(self).lemma_at(j);
                            self.lemma_at(j);
                        } else {
                            assert(!self.spec_contains(k2));
                        }
                    }
                }
                return ;
            }
            i = i + 1;
        }
        self.entries.push((k, v));
        proof {
            assert(self.entries@ == old(self).entries@.push((k, v)));
            assert(self.entries@[n as int].0 == k);
            self.lemma_at(n as int);
            assert(!old(self).spec_contains(k));
            assert forall|k2: u128| k2 != k implies #[trigger] final(self).spec_get(k2) == old(
                self,
            ).spec_get(k2) by {
                if old(self).spec_contains(k2) {
                    let j = choose|j: int|
                        0 <= j < old(self).entries@.len() && (#[trigger] old(self).entries@[j]).0
                            == k2;
                    old(self).lemma_at(j);
                    self.lemma_at(j);
                } else {
                    assert(!self.spec_contains(k2));
                }
            }
            assert forall|k2: u128| k2 != k implies #[trigger] final(self).spec_contains(k2)
                == old(self).spec_contains(k2) by {
                if old(self).spec_contains(k2) {
                    let j = choose|j: int|
                        0 <= j < old(self).entries@.len() && (#[trigger] old(self).entries@[j]).0
                            == k2;
                    old(self).lemma_at(j);
                    self.lemma_at(j);
                } else {
                    assert(!self.spec_contains(k2));
                }
            }
        }
    }

    /// Removes and returns the value under key `k`, if any.
    pub fn remove(&mut self, k: u128) -> (r: Option<V>)
        requires
            old(self).wf(),
        ensures
            final(self).wf(),
            !final(self).spec_contains(k),
            r == old(self).spec_get(k),
            forall|k2: u128|
                k2 != k ==> #[trigger] final(self).spec_get(k2) == old(self).spec_get(k2),
            forall|k2: u128|
                k2 != k ==> #[trigger] final(self).spec_contains(k2) == old(self).spec_contains(
                    k2,
                ),
            final(self).entries@.len() == old(self).entries@.len() - (if old(self).spec_contains(
                k,
            ) {
                1int
            } else {
                0
            }),
            !old(self).spec_contains(k) ==> final(self).entries@ == old(self).entries@,
    {
        let n = self.entries.len();
        let mut i: usize = 0;
        while i < n
            invariant
                self == old(self),
                old(self).wf(),
                n == self.entries@.len(),
                i <= n,
                forall|j: int| 0 <= j < i ==> (#[trigger] self.entries@[j]).0 != k,
            decreases n - i,
        {
            if self.entries[i].0 == k {
                proof {
                    old(self).lemma_at(i as int);
                }
                let entry = self.entries.remove(i);
                proof {
                    assert forall|k2: u128| k2 != k implies #[trigger] final(self).spec_get(k2)
                        == old(self).spec_get(k2) && final(self).spec_contains(k2) == old(
                        self,
                    ).spec_contains(k2) by {
                        if old(self).spec_contains(k2) {
                            let j = choose|j: int|
                                0 <= j < old(self).entries@.len() && (#[trigger] old(
                                    self,
                                ).entries@[j]).0 == k2;
                            old(self).lemma_at(j);
                            if j < i {
                                self.lemma_at(j);
                            } else {
                                self.lemma_at(j - 1);
                            }
                        } else {
                            assert(!self.spec_contains(k2)) by {
                                if self.spec_contains(k2) {
                                    let j = choose|j: int|
                                        0 <= j < self.entries@.len() && (#[trigger] self.entries@[j]).0
                                            == k2;
                                    if j < i {
                                        assert(old(self).entries@[j].0 == k2);
                                    } else {
                                        assert(old(self).entries@[j + 1].0 == k2);
                                    }
                                }
                            }
                        }
                    }
                    assert forall|k2: u128| k2 != k implies #[trigger] final(self).spec_contains(
                        k2,
                    ) == old(self).spec_contains(k2) by {
                        assert(final(self).spec_get(k2) == old(self).spec_get(k2));
                        if old(self).spec_contains(k2) {
                            let j = choose|j: int|
                                0 <= j < old(self).entries@.len() && (#[trigger] old(
                                    self,
                                ).entries@[j]).0 == k2;
                            old(self).lemma_at(j);
                            if j < i {
                                self.lemma_at(j);
                            } else {
                                self.lemma_at(j - 1);
                            }
                        } else {
                            assert(!self.spec_contains(k2)) by {
                                if self.spec_contains(k2) {
                                    let j = choose|j: int|
                                        0 <= j < self.entries@.len() && (#[trigger] self.entries@[j]).0
                                            == k2;
                                    if j < i {
                                        assert(old(self).entries@[j].0 == k2);
                                    } else {
                                        assert(old(self).entries@[j + 1].0 == k2);
                                    }
                                }
                            }
                        }
                    }
                    assert(!self.spec_contains(k)) by {
                        if self.spec_contains(k) {
                            let j = choose|j: int|
                                0 <= j < self.entries@.len() && (#[trigger] self.entries@[j]).0
                                    == k;
                            if j < i {
                                assert(old(self).entries@[j].0 == k);
                            } else {
                                assert(old(self).entries@[j + 1].0 == k);
                            }
                        }
                    }
                }
                return Some(entry.1);
            }
            i = i + 1;
        }
        None
    }
}

/// Key pairs of a sequence of entries are pairwise distinct.
pub open spec fn spec_pairs_unique<V>(s: Seq<(u128, u128, V)>) -> bool {
    forall|i: int, j: int|
        0 <= i < j < s.len() ==> ((#[trigger] s[i]).0 != (#[trigger] s[j]).0 || s[i].1 != s[j].1)
}

/// Whether some entry of `s` has key pair `(k1, k2)`.
pub open spec fn spec_pair_key_in<V>(s: Seq<(u128, u128, V)>, k1: u128, k2: u128) -> bool {
    exists|i: int| 0 <= i < s.len() && (#[trigger] s[i]).0 == k1 && s[i].1 == k2
}

/// Filtering entries with pairwise distinct key pairs keeps them
/// pairwise distinct, and introduces no key pair that was absent.
pub proof fn lemma_filter_pairs_unique<V>(s: Seq<(u128, u128, V)>, pred: spec_fn((u128, u128, V)) -> bool)
    requires
        spec_pairs_unique(s),
    ensures
        spec_pairs_unique(s.filter(pred)),
        forall|t: int|
            0 <= t < s.filter(pred).len() ==> spec_pair_key_in(
                s,
                (#[trigger] s.filter(pred)[t]).0,
                s.filter(pred)[t].1,
            ),
    decreases s.len(),
{
    reveal(Seq::filter);
    if s.len() == 0 {
    } else {
        let d = s.drop_last();
        assert(spec_pairs_unique(d)) by {
            assert forall|i: int, j: int|
                0 <= i < j < d.len() implies ((#[trigger] d[i]).0 != (#[trigger] d[j]).0
                || d[i].1 != d[j].1) by {
                assert(d[i] == s[i]);
                assert(d[j] == s[j]);
            }
        }
        lemma_filter_pairs_unique(d, pred);
        let f = s.filter(pred);
        let fd = d.filter(pred);
        assert forall|t: int|
            0 <= t < f.len() implies spec_pair_key_in(s, (#[trigger] f[t]).0, f[t].1) by {
            if pred(s.last()) && t == f.len() - 1 {
                assert(f[t] == s.last());
                assert(s[s.len() - 1].0 == f[t].0 && s[s.len() - 1].1 == f[t].1);
            } else {
                assert(f[t] == fd[t]);
                assert(spec_pair_key_in(d, fd[t].0, fd[t].1));
                let i = choose|i: int|
                    0 <= i < d.len() && (#[trigger] d[i]).0 == fd[t].0 && d[i].1 == fd[t].1;
                assert(s[i].0 == f[t].0 && s[i].1 == f[t].1);
            }
        }
        assert forall|a: int, b: int|
            0 <= a < b < f.len() implies ((#[trigger] f[a]).0 != (#[trigger] f[b]).0 || f[a].1
            != f[b].1) by {
            if pred(s.last()) && b == f.len() - 1 {
                assert(f[a] == fd[a]);
                assert(spec_pair_key_in(d, fd[a].0, fd[a].1));
                let i = choose|i: int|
                    0 <= i < d.len() && (#[trigger] d[i]).0 == fd[a].0 && d[i].1 == fd[a].1;
                assert(s[i].0 == f[a].0 && s[i].1 == f[a].1);
                assert(f[b] == s.last());
                assert(s[i].0 != s[s.len() - 1].0 || s[i].1 != s[s.len() - 1].1);
            } else {
                assert(f[a] == fd[a] && f[b] == fd[b]);
            }
        }
    }
}

/// Keeps the entries whose first key differs from `k1`.
pub open spec fn spec_left_ne<V>(k1: u128) -> spec_fn((u128, u128, V)) -> bool {
    |e: (u128, u128, V)| e.0 != k1
}

/// Keeps the entries whose second key differs from `k2`.
pub open spec fn spec_right_ne<V>(k2: u128) -> spec_fn((u128, u128, V)) -> bool {
    |e: (u128, u128, V)| e.1 != k2
}

/// First keys of the entries whose second key is `k2`, in table order.
pub open spec fn spec_lefts_with_right<V>(s: Seq<(u128, u128, V)>, k2: u128) -> Seq<u128>
    decreases s.len(),
{
    if s.len() == 0 {
        Seq::empty()
    } else {
        let rest = spec_lefts_with_right(s.drop_last(), k2);
        if s.last().1 == k2 {
            rest.push(s.last().0)
        } else {
            rest
        }
    }
}

/// Table keyed by a pair of 128-bit identifiers, in insertion order.
pub struct PairTable<V> {
    /// Entries, each a key pair with its value; key pairs are unique.
    pub entries: Vec<(u128, u128, V)>,
}

impl<V> PairTable<V> {
    /// Key pairs are pairwise distinct.
    pub open spec fn wf(self) -> bool {
        forall|i: int, j: int|
            0 <= i < j < self.entries@.len() ==> ((#[trigger] self.entries@[i]).0
                != (#[trigger] self.entries@[j]).0 || self.entries@[i].1 != self.entries@[j].1)
    }

    /// Whether some entry has key pair `(k1, k2)`.
    pub open spec fn spec_contains(self, k1: u128, k2: u128) -> bool {
        exists|i: int|
            0 <= i < self.entries@.len() && (#[trigger] self.entries@[i]).0 == k1
                && self.entries@[i].1 == k2
    }

    /// Position of the entry with key pair `(k1, k2)`, when one exists.
    pub open spec fn spec_index_of(self, k1: u128, k2: u128) -> int {
        choose|i: int|
            0 <= i < self.entries@.len() && (#[trigger] self.entries@[i]).0 == k1
                && self.entries@[i].1 == k2
    }

    /// Value stored under key pair `(k1, k2)`, if any.
    pub open spec fn spec_get(self, k1: u128, k2: u128) -> Option<V> {
        if self.spec_contains(k1, k2) {
            Some(self.entries@[self.spec_index_of(k1, k2)].2)
        } else {
            None
        }
    }

    /// The entry at a valid position is the one its key pair maps to.
    pub proof fn lemma_at(self, i: int)
        requires
            self.wf(),
            0 <= i < self.entries@.len(),
        ensures
            self.spec_contains(self.entries@[i].0, self.entries@[i].1),
            self.spec_get(self.entries@[i].0, self.entries@[i].1) == Some(self.entries@[i].2),
    {
        let k1 = self.entries@[i].0;
        let k2 = self.entries@[i].1;
        assert(self.spec_contains(k1, k2));
        let j = self.spec_index_of(k1, k2);
        assert(0 <= j < self.entries@.len() && self.entries@[j].0 == k1 && self.entries@[j].1
            == k2);
        assert(j == i);
    }

    /// Creates an empty table.
    pub fn new() -> (t: PairTable<V>)
        ensures
            t.wf(),
            t.entries@.len() == 0,
            forall|k1: u128, k2: u128| !t.spec_contains(k1, k2),
    {
        PairTable { entries: Vec::new() }
    }

    /// Number of entries.
    pub fn len(&self) -> (n: usize)
        ensures
            n == self.entries@.len(),
    {
        self.entries.len()
    }

    /// Position of the entry under key pair `(k1, k2)`, if any.
    pub fn index_of(&self, k1: u128, k2: u128) -> (r: Option<usize>)
        requires
            self.wf(),
        ensures
            match r {
                Some(i) => 0 <= i < self.entries@.len() && self.entries@[i as int].0 == k1
                    && self.entries@[i as int].1 == k2 && self.spec_get(k1, k2) == Some(
                    self.entries@[i as int].2,
                ),
                None => !self.spec_contains(k1, k2),
            },
    {
        let n = self.entries.len();
        let mut i: usize = 0;
        while i < n
            invariant
                self.wf(),
                n == self.entries@.len(),
                i <= n,
                forall|j: int|
                    0 <= j < i ==> ((#[trigger] self.entries@[j]).0 != k1 || self.entries@[j].1
                        != k2),
            decreases n - i,
        {
            if self.entries[i].0 == k1 && self.entries[i].1 == k2 {
                proof {
                    self.lemma_at(i as int);
                }
                return Some(i);
            }
            i = i + 1;
        }
        None
    }

    /// Whether the table has an entry under key pair `(k1, k2)`.
    pub fn contains(&self, k1: u128, k2: u128) -> (r: bool)
        requires
            self.wf(),
        ensures
            r == self.spec_contains(k1, k2),
    {
        let r = self.index_of(k1, k2);
        r.is_some()
    }

    /// Borrows the value under key pair `(k1, k2)`, if any.
    pub fn get(&self, k1: u128, k2: u128) -> (r: Option<&V>)
        requires
            self.wf(),
        ensures
            match r {
                Some(v) => self.spec_contains(k1, k2) && Some(*v) == self.spec_get(k1, k2),
                None => !self.spec_contains(k1, k2),
            },
    {
        match self.index_of(k1, k2) {
            Some(i) => Some(&self.entries[i].2),
            None => None,
        }
    }

    /// Removes and returns the entry at a valid position.
    pub fn remove_at(&mut self, i: usize) -> (e: (u128, u128, V))
        requires
            old(self).wf(),
            i < old(self).entries@.len(),
        ensures
            final(self).wf(),
            e == old(self).entries@[i as int],
            final(self).entries@ == old(self).entries@.remove(i as int),
    {
        let e = self.entries.remove(i);
        proof {
            assert forall|a: int, b: int|
                0 <= a < b < self.entries@.len() implies ((#[trigger] self.entries@[a]).0
                != (#[trigger] self.entries@[b]).0 || self.entries@[a].1
                != self.entries@[b].1) by {
                let a0 = if a < i {
                    a
                } else {
                    a + 1
                };
                let b0 = if b < i {
                    b
                } else {
                    b + 1
                };
                assert(self.entries@[a] == old(self).entries@[a0]);
                assert(self.entries@[b] == old(self).entries@[b0]);
            }
        }
        e
    }

    /// Inserts an entry at a position, which must not duplicate a key pair.
    pub fn insert_at(&mut self, i: usize, k1: u128, k2: u128, v: V)
        requires
            old(self).wf(),
            i <= old(self).entries@.len(),
            !old(self).spec_contains(k1, k2),
        ensures
            final(self).wf(),
            final(self).entries@ == old(self).entries@.insert(i as int, (k1, k2, v)),
    {
        self.entries.insert(i, (k1, k2, v));
        proof {
            assert forall|a: int, b: int|
                0 <= a < b < self.entries@.len() implies ((#[trigger] self.entries@[a]).0
                != (#[trigger] self.entries@[b]).0 || self.entries@[a].1
                != self.entries@[b].1) by {
                if a == i {
                    assert(self.entries@[b] == old(self).entries@[b - 1]);
                    assert(!(old(self).entries@[b - 1].0 == k1 && old(self).entries@[b - 1].1
                        == k2));
                } else if b == i {
                    assert(self.entries@[a] == old(self).entries@[a]);
                    assert(!(old(self).entries@[a].0 == k1 && old(self).entries@[a].1 == k2));
                } else {
                    let a0 = if a < i {
                        a
                    } else {
                        a - 1
                    };
                    let b0 = if b < i {
                        b
                    } else {
                        b - 1
                    };
                    assert(self.entries@[a] == old(self).entries@[a0]);
                    assert(self.entries@[b] == old(self).entries@[b0]);
                }
            }
        }
    }

    /// Stores `v` under key pair `(k1, k2)`, replacing any previous value.
    pub fn insert(&mut self, k1: u128, k2: u128, v: V)
        requires
            old(self).wf(),
        ensures
            final(self).wf(),
            final(self).spec_contains(k1, k2),
            final(self).spec_get(k1, k2) == Some(v),
            forall|a: u128, b: u128|
                !(a == k1 && b == k2) ==> #[trigger] final(self).spec_get(a, b) == old(
                    self,
                ).spec_get(a, b),
            forall|a: u128, b: u128|
                !(a == k1 && b == k2) ==> #[trigger] final(self).spec_contains(a, b) == old(
                    self,
                ).spec_contains(a, b),
            final(self).entries@.len() == old(self).entries@.len() + (if old(self).spec_contains(
                k1,
                k2,
            ) {
                0int
            } else {
                1
            }),
    {
        let n = self.entries.len();
        let mut i: usize = 0;
        while i < n
            invariant
                self == old(self),
                old(self).wf(),
                n == self.entries@.len(),
                i <= n,
                forall|j: int|
                    0 <= j < i ==> ((#[trigger] self.entries@[j]).0 != k1 || self.entries@[j].1
                        != k2),
            decreases n - i,
        {
            if self.entries[i].0 == k1 && self.entries[i].1 == k2 {
                proof {
                    old(self).lemma_at(i as int);
                }
                self.entries.set(i, (k1, k2, v));
                proof {
                    self.lemma_at(i as int);
                    assert forall|a: u128, b: u128|
                        !(a == k1 && b == k2) implies #[trigger] final(self).spec_get(a, b) == old(
                        self,
                    ).spec_get(a, b) by {
                        if old(self).spec_contains(a, b) {
                            let j = choose|j: int|
                                0 <= j < old(self).entries@.len() && (#[trigger] old(
                                    self,
                                ).entries@[j]).0 == a && old(self).entries@[j].1 == b;
                            old(self).lemma_at(j);
                            self.lemma_at(j);
                        } else {
                            assert(!self.spec_contains(a, b));
                        }
                    }
                    assert forall|a: u128, b: u128|
                        !(a == k1 && b == k2) implies #[trigger] final(self).spec_contains(a, b)
                        == old(self).spec_contains(a, b) by {
                        if old(self).spec_contains(a, b) {
                            let j = choose|j: int|
                                0 <= j < old(self).entries@.len() && (#[trigger] old(
                                    self,
                                ).entries@[j]).0 == a && old(self).entries@[j].1 == b;
                            old(self).lemma_at(j);
                            self.lemma_at(j);
                        } else {
                            assert(!self.spec_contains(a, b));
                        }
                    }
                }
                return ;
            }
            i = i + 1;
        }
        self.entries.push((k1, k2, v));
        proof {
            assert(self.entries@[n as int].0 == k1 && self.entries@[n as int].1 == k2);
            self.lemma_at(n as int);
            assert(!old(self).spec_contains(k1, k2));
            assert forall|a: u128, b: u128|
                !(a == k1 && b == k2) implies #[trigger] final(self).spec_get(a, b) == old(
                self,
            ).spec_get(a, b) by {
                if old(self).spec_contains(a, b) {
                    let j = choose|j: int|
                        0 <= j < old(self).entries@.len() && (#[trigger] old(self).entries@[j]).0
                            == a && old(self).entries@[j].1 == b;
                    old(self).lemma_at(j);
                    self.lemma_at(j);
                } else {
                    assert(!self.spec_contains(a, b));
                }
            }
            assert forall|a: u128, b: u128|
                !(a == k1 && b == k2) implies #[trigger] final(self).spec_contains(a, b) == old(
                self,
            ).spec_contains(a, b) by {
                if old(self).spec_contains(a, b) {
                    let j = choose|j: int|
                        0 <= j < old(self).entries@.len() && (#[trigger] old(self).entries@[j]).0
                            == a && old(self).entries@[j].1 == b;
                    old(self).lemma_at(j);
                    self.lemma_at(j);
                } else {
                    assert(!self.spec_contains(a, b));
                }
            }
        }
    }

    /// Removes and returns the value under key pair `(k1, k2)`, if any.
    pub fn remove(&mut self, k1: u128, k2: u128) -> (r: Option<V>)
        requires
            old(self).wf(),
        ensures
            final(self).wf(),
            !final(self).spec_contains(k1, k2),
            r == old(self).spec_get(k1, k2),
            forall|a: u128, b: u128|
                !(a == k1 && b == k2) ==> #[trigger] final(self).spec_get(a, b) == old(
                    self,
                ).spec_get(a, b),
            forall|a: u128, b: u128|
                !(a == k1 && b == k2) ==> #[trigger] final(self).spec_contains(a, b) == old(
                    self,
                ).spec_contains(a, b),
            !old(self).spec_contains(k1, k2) ==> final(self).entries@ == old(self).entries@,
    {
        let found = self.index_of(k1, k2);
        match found {
            None => None,
            Some(i) => {
                proof {
                    old(self).lemma_at(i as int);
                }
                let e = self.remove_at(i);
                proof {
                    assert forall|a: u128, b: u128|
                        !(a == k1 && b == k2) implies #[trigger] final(self).spec_get(a, b) == old(
                        self,
                    ).spec_get(a, b) && final(self).spec_contains(a, b) == old(
                        self,
                    ).spec_contains(a, b) by {
                        if old(self).spec_contains(a, b) {
                            let j = choose|j: int|
                                0 <= j < old(self).entries@.len() && (#[trigger] old(
                                    self,
                                ).entries@[j]).0 == a && old(self).entries@[j].1 == b;
                            old(self).lemma_at(j);
                            if j < i {
                                self.lemma_at(j);
                            } else {
                                self.lemma_at(j - 1);
                            }
                        } else {
                            assert(!self.spec_contains(a, b)) by {
                                if self.spec_contains(a, b) {
                                    let j = choose|j: int|
                                        0 <= j < self.entries@.len() && (#[trigger] self.entries@[j]).0
                                            == a && self.entries@[j].1 == b;
                                    if j < i {
                                        assert(old(self).entries@[j].0 == a);
                                    } else {
                                        assert(old(self).entries@[j + 1].0 == a);
                                    }
                                }
                            }
                        }
                    }
                    assert forall|a: u128, b: u128|
                        !(a == k1 && b == k2) implies #[trigger] final(self).spec_contains(a, b)
                        == old(self).spec_contains(a, b) by {
                        assert(final(self).spec_get(a, b) == old(self).spec_get(a, b));
                        if old(self).spec_contains(a, b) {
                            let j = choose|j: int|
                                0 <= j < old(self).entries@.len() && (#[trigger] old(
                                    self,
                                ).entries@[j]).0 == a && old(self).entries@[j].1 == b;
                            old(self).lemma_at(j);
                            if j < i {
                                self.lemma_at(j);
                            } else {
                                self.lemma_at(j - 1);
                            }
                        } else {
                            assert(!self.spec_contains(a, b)) by {
                                if self.spec_contains(a, b) {
                                    let j = choose|j: int|
                                        0 <= j < self.entries@.len() && (#[trigger] self.entries@[j]).0
                                            == a && self.entries@[j].1 == b;
                                    if j < i {
                                        assert(old(self).entries@[j].0 == a);
                                    } else {
                                        assert(old(self).entries@[j + 1].0 == a);
                                    }
                                }
                            }
                        }
                    }
                    assert(!self.spec_contains(k1, k2)) by {
                        if self.spec_contains(k1, k2) {
                            let j = choose|j: int|
                                0 <= j < self.entries@.len() && (#[trigger] self.entries@[j]).0
                                    == k1 && self.entries@[j].1 == k2;
                            if j < i {
                                assert(old(self).entries@[j].0 == k1);
                            } else {
                                assert(old(self).entries@[j + 1].0 == k1);
                            }
                        }
                    }
                }
                Some(e.2)
            },
        }
    }

    /// Replacing the value at one position updates that key pair's value
    /// and leaves every other key pair's value unchanged.
    pub proof fn lemma_update_frame(pre: PairTable<V>, post: PairTable<V>, i: int, v: V)
        requires
            pre.wf(),
            0 <= i < pre.entries@.len(),
            post.entries@ == pre.entries@.update(
                i,
                (pre.entries@[i].0, pre.entries@[i].1, v),
            ),
        ensures
            post.wf(),
            post.spec_get(pre.entries@[i].0, pre.entries@[i].1) == Some(v),
            forall|a: u128, b: u128|
                !(a == pre.entries@[i].0 && b == pre.entries@[i].1)
                    ==> #[trigger] post.spec_get(a, b) == pre.spec_get(a, b),
            forall|a: u128, b: u128|
                #[trigger] post.spec_contains(a, b) == pre.spec_contains(a, b),
    {
        let k1 = pre.entries@[i].0;
        let k2 = pre.entries@[i].1;
        assert(post.wf()) by {
            assert forall|a: int, b: int|
                0 <= a < b < post.entries@.len() implies ((#[trigger] post.entries@[a]).0
                != (#[trigger] post.entries@[b]).0 || post.entries@[a].1
                != post.entries@[b].1) by {
                assert(post.entries@[a].0 == pre.entries@[a].0 && post.entries@[a].1
                    == pre.entries@[a].1);
                assert(post.entries@[b].0 == pre.entries@[b].0 && post.entries@[b].1
                    == pre.entries@[b].1);
            }
        }
        post.lemma_at(i);
        assert forall|a: u128, b: u128|
            !(a == k1 && b == k2) implies #[trigger] post.spec_get(a, b) == pre.spec_get(
            a,
            b,
        ) by {
            if pre.spec_contains(a, b) {
                let j = choose|j: int|
                    0 <= j < pre.entries@.len() && (#[trigger] pre.entries@[j]).0 == a
                        && pre.entries@[j].1 == b;
                pre.lemma_at(j);
                assert(post.entries@[j] == pre.entries@[j]);
                post.lemma_at(j);
            } else {
                assert(!post.spec_contains(a, b)) by {
                    if post.spec_contains(a, b) {
                        let j = choose|j: int|
                            0 <= j < post.entries@.len() && (#[trigger] post.entries@[j]).0 == a
                                && post.entries@[j].1 == b;
                        assert(pre.entries@[j].0 == a && pre.entries@[j].1 == b);
                    }
                }
            }
        }
        assert forall|a: u128, b: u128| #[trigger]
            post.spec_contains(a, b) == pre.spec_contains(a, b) by {
            if pre.spec_contains(a, b) {
                let j = choose|j: int|
                    0 <= j < pre.entries@.len() && (#[trigger] pre.entries@[j]).0 == a
                        && pre.entries@[j].1 == b;
                assert(post.entries@[j].0 == a && post.entries@[j].1 == b);
            }
            if post.spec_contains(a, b) {
                let j = choose|j: int|
                    0 <= j < post.entries@.len() && (#[trigger] post.entries@[j]).0 == a
                        && post.entries@[j].1 == b;
                assert(pre.entries@[j].0 == a && pre.entries@[j].1 == b);
            }
        }
    }

    /// Removes every entry whose first key is `k1`.
    pub fn remove_left(&mut self, k1: u128)
        requires
            old(self).wf(),
        ensures
            final(self).wf(),
            final(self).entries@ == old(self).entries@.filter(spec_left_ne::<V>(k1)),
    {
        let ghost pred = spec_left_ne::<V>(k1);
        let ghost es0 = self.entries@;
        let n = self.entries.len();
        let mut kept: Vec<(u128, u128, V)> = Vec::new();
        let mut j: usize = 0;
        proof {
            assert(es0.take(0).filter(pred) =~= Seq::<(u128, u128, V)>::empty());
        }
        while j < n
            invariant
                old(self).wf(),
                pred == spec_left_ne::<V>(k1),
                es0 == old(self).entries@,
                n == es0.len(),
                j <= n,
                self.entries@ == es0.skip(j as int),
                kept@ == es0.take(j as int).filter(pred),
            decreases n - j,
        {
            let e = self.entries.remove(0);
            if e.0 != k1 {
                kept.push(e);
            }
            proof {
                es0.take(j as int).lemma_filter_push(es0[j as int], pred);
                assert(es0.take(j + 1) =~= es0.take(j as int).push(es0[j as int]));
                assert(self.entries@ =~= es0.skip(j + 1));
            }
            j = j + 1;
        }
        self.entries = kept;
        proof {
            assert(es0.take(n as int) =~= es0);
            lemma_filter_pairs_unique(es0, pred);
        }
    }

    /// Removes every entry whose second key is `k2`.
    pub fn remove_right(&mut self, k2: u128)
        requires
            old(self).wf(),
        ensures
            final(self).wf(),
            final(self).entries@ == old(self).entries@.filter(spec_right_ne::<V>(k2)),
    {
        let ghost pred = spec_right_ne::<V>(k2);
        let ghost es0 = self.entries@;
        let n = self.entries.len();
        let mut kept: Vec<(u128, u128, V)> = Vec::new();
        let mut j: usize = 0;
        proof {
            assert(es0.take(0).filter(pred) =~= Seq::<(u128, u128, V)>::empty());
        }
        while j < n
            invariant
                old(self).wf(),
                pred == spec_right_ne::<V>(k2),
                es0 == old(self).entries@,
                n == es0.len(),
                j <= n,
                self.entries@ == es0.skip(j as int),
                kept@ == es0.take(j as int).filter(pred),
            decreases n - j,
        {
            let e = self.entries.remove(0);
            if e.1 != k2 {
                kept.push(e);
            }
            proof {
                es0.take(j as int).lemma_filter_push(es0[j as int], pred);
                assert(es0.take(j + 1) =~= es0.take(j as int).push(es0[j as int]));
                assert(self.entries@ =~= es0.skip(j + 1));
            }
            j = j + 1;
        }
        self.entries = kept;
        proof {
            assert(es0.take(n as int) =~= es0);
            lemma_filter_pairs_unique(es0, pred);
        }
    }
}

} // verus!
