use vstd::prelude::*;

use crate::account::Account;

verus! {

/// A finite map from addresses to values, in the shape of the contract's
/// per-recipient persistent entries: at most one value per address.
pub struct Table<T> {
    keys: Vec<Account>,
    vals: Vec<T>,
}

/// The position of `k` among `keys` (meaningful when `keys` contains `k`).
pub open spec fn position(keys: Seq<Account>, k: Account) -> int {
    choose|i: int| 0 <= i < keys.len() && keys[i] == k
}

impl<T> View for Table<T> {
    type V = Map<Account, T>;

    /// The entries of the table as a map.
    closed spec fn view(&self) -> Map<Account, T> {
        Map::new(
            |k: Account| self.keys@.contains(k),
            |k: Account| self.vals@[position(self.keys@, k)],
        )
    }
}

impl<T> Table<T> {
    #[verifier::type_invariant]
    spec fn well_formed(self) -> bool {
        &&& self.keys@.len() == self.vals@.len()
        &&& forall|i: int, j: int|
            0 <= i < self.keys@.len() && 0 <= j < self.keys@.len() && i != j
                ==> self.keys@[i] != self.keys@[j]
    }

    proof fn lemma_position(&self, i: int)
        requires
            self.well_formed(),
            0 <= i < self.keys@.len(),
        ensures
            position(self.keys@, self.keys@[i]) == i,
            self.view().contains_key(self.keys@[i]),
            self.view()[self.keys@[i]] == self.vals@[i],
    {
        assert(self.keys@.contains(self.keys@[i]));
    }

    /// An empty table.
    pub fn new() -> (t: Self)
        ensures
            t.view() == Map::<Account, T>::empty(),
    {
        let t = Table { keys: Vec::new(), vals: Vec::new() };
        assert(t.view() =~= Map::<Account, T>::empty());
        t
    }

    /// The number of entries.
    pub fn len(&self) -> (n: usize)
        ensures
            n == self.view().len(),
    {
        proof {
            use_type_invariant(self);
            let m = self.view();
            let ks = self.keys@;
            assert(m.dom() =~= ks.to_set());
            ks.unique_seq_to_set();
        }
        self.keys.len()
    }

    fn find(&self, k: &Account) -> (r: Option<usize>)
        ensures
            r is None ==> !self.keys@.contains(*k),
            r matches Some(i) ==> i < self.keys@.len() && self.keys@[i as int] == *k,
    {
        proof {
            use_type_invariant(self);
        }
        let n = self.keys.len();
        let mut i: usize = 0;
        while i < n
            invariant
                n == self.keys@.len(),
                i <= n,
                forall|j: int| 0 <= j < i ==> self.keys@[j] != *k,
            decreases n - i,
        {
            if self.keys[i] == *k {
                return Some(i);
            }
            i = i + 1;
        }
        None
    }

    /// Whether `k` has an entry.
    pub fn contains_key(&self, k: &Account) -> (b: bool)
        ensures
            b == self.view().contains_key(*k),
    {
        match self.find(k) {
            Some(_) => true,
            None => false,
        }
    }

    /// The value stored for `k`, if any.
    pub fn get(&self, k: &Account) -> (r: Option<&T>)
        ensures
            r is Some <==> self.view().contains_key(*k),
            r matches Some(v) ==> *v == self.view()[*k],
    {
        match self.find(k) {
            Some(i) => {
                proof {
                    use_type_invariant(self);
                    self.lemma_position(i as int);
                }
                Some(&self.vals[i])
            },
            None => None,
        }
    }

    /// Removes and returns the value stored for `k`, if any.
    pub fn remove(&mut self, k: &Account) -> (r: Option<T>)
        ensures
            final(self).view() == old(self).view().remove(*k),
            r is Some <==> old(self).view().contains_key(*k),
            r matches Some(v) ==> v == old(self).view()[*k],
    {
        proof {
            use_type_invariant(&*self);
        }
        match self.find(k) {
            Some(i) => {
                proof {
                    self.lemma_position(i as int);
                }
                let ghost old_keys = self.keys@;
                let ghost old_vals = self.vals@;
                let ghost old_view = self.view();
                let mut whole = Table { keys: Vec::new(), vals: Vec::new() };
                std::mem::swap(&mut whole, self);
                let Table { mut keys, mut vals } = whole;
                keys.remove(i);
                let v = vals.remove(i);
                proof {
                    assert forall|a: int, b: int|
                        0 <= a < keys@.len() && 0 <= b < keys@.len() && a != b
                            implies keys@[a] != keys@[b] by {
                        let a2 = if a < i { a } else { a + 1 };
                        let b2 = if b < i { b } else { b + 1 };
                        assert(keys@[a] == old_keys[a2]);
                        assert(keys@[b] == old_keys[b2]);
                    }
                }
                *self = Table { keys, vals };
                proof {
                    let nv = self.view();
                    assert forall|x: Account| #[trigger] nv.contains_key(x) == old_view.remove(*k).contains_key(x) by {
                        if nv.contains_key(x) {
                            let p = choose|p: int| 0 <= p < self.keys@.len() && self.keys@[p] == x;
                            let p2 = if p < i { p } else { p + 1 };
                            assert(old_keys[p2] == x);
                            assert(old_keys.contains(x));
                        }
                        if old_view.remove(*k).contains_key(x) {
                            let p = choose|p: int| 0 <= p < old_keys.len() && old_keys[p] == x;
                            assert(p != i);
                            let p2 = if p < i { p } else { p - 1 };
                            assert(self.keys@[p2] == x);
                            assert(self.keys@.contains(x));
                        }
                    }
                    assert forall|x: Account| #[trigger] nv.contains_key(x) implies nv[x] == old_view[x] by {
                        let p = choose|p: int| 0 <= p < self.keys@.len() && self.keys@[p] == x;
                        self.lemma_position(p);
                        let p2 = if p < i { p } else { p + 1 };
                        assert(old_keys[p2] == x);
                        assert(old_keys.contains(x));
                        assert(position(old_keys, x) == p2) by {
                            let q = position(old_keys, x);
                            assert(0 <= q < old_keys.len() && old_keys[q] == x);
                        }
                    }
                    assert(nv =~= old_view.remove(*k));
                }
                Some(v)
            },
            None => {
                proof {
                    assert(self.view() =~= old(self).view().remove(*k));
                }
                None
            },
        }
    }

    /// Stores `v` for `k`, replacing any earlier value.
    pub fn insert(&mut self, k: Account, v: T)
        ensures
            final(self).view() == old(self).view().insert(k, v),
    {
        let _ = self.remove(&k);
        proof {
            use_type_invariant(&*self);
        }
        let ghost mid_keys = self.keys@;
        let ghost mid_view = self.view();
        let mut whole = Table { keys: Vec::new(), vals: Vec::new() };
        std::mem::swap(&mut whole, self);
        let Table { mut keys, mut vals } = whole;
        proof {
            assert(!mid_view.contains_key(k));
            assert(!mid_keys.contains(k));
        }
        keys.push(k);
        vals.push(v);
        proof {
            assert forall|a: int, b: int|
                0 <= a < keys@.len() && 0 <= b < keys@.len() && a != b
                    implies keys@[a] != keys@[b] by {
                if a == mid_keys.len() {
                    assert(mid_keys.contains(keys@[b]) || b == a);
                } else if b == mid_keys.len() {
                    assert(mid_keys.contains(keys@[a]));
                }
            }
        }
        *self = Table { keys, vals };
        proof {
            let nv = self.view();
            let n = mid_keys.len() as int;
            self.lemma_position(n);
            assert forall|x: Account| #[trigger] nv.contains_key(x) == mid_view.insert(k, v).contains_key(x) by {
                if nv.contains_key(x) && x != k {
                    let p = choose|p: int| 0 <= p < self.keys@.len() && self.keys@[p] == x;
                    assert(p != n);
                    assert(mid_keys[p] == x);
                    assert(mid_keys.contains(x));
                }
                if mid_view.contains_key(x) {
                    let p = choose|p: int| 0 <= p < mid_keys.len() && mid_keys[p] == x;
                    assert(self.keys@[p] == x);
                    assert(self.keys@.contains(x));
                }
            }
            assert forall|x: Account| #[trigger] nv.contains_key(x) && x != k implies nv[x] == mid_view[x] by {
                let p = choose|p: int| 0 <= p < self.keys@.len() && self.keys@[p] == x;
                self.lemma_position(p);
                assert(p != n);
                assert(mid_keys[p] == x);
                assert(mid_keys.contains(x));
                assert(position(mid_keys, x) == p) by {
                    let q = position(mid_keys, x);
                    assert(0 <= q < mid_keys.len() && mid_keys[q] == x);
                    assert(self.keys@[q] == x);
                }
            }
            assert(nv =~= mid_view.insert(k, v));
        }
    }
}

} // verus!
