//! A one-to-many relation with a reverse index: each key owns a set of
//! values, and each value belongs to at most one key.

use std::collections::HashMap;
use vstd::prelude::*;

verus! {

broadcast use vstd::std_specs::hash::group_hash_axioms;

/// Forward map from key to its values, and reverse map from value to its
/// key, kept in lock-step.
pub struct BidirectionalMultimap {
    forward: HashMap<u64, Vec<u64>>,
    reverse: HashMap<u64, u64>,
}

/// `vs` without the element `v`; the other elements keep their order.
pub(crate) fn without(vs: &Vec<u64>, v: u64) -> (r: Vec<u64>)
    requires
        vs@.no_duplicates(),
    ensures
        r@.no_duplicates(),
        forall|x: u64| r@.contains(x) <==> (vs@.contains(x) && x != v),
{
    let mut r: Vec<u64> = Vec::new();
    let mut i: usize = 0;
    while i < vs.len()
        invariant
            i <= vs.len(),
            vs@.no_duplicates(),
            r@.no_duplicates(),
            forall|j: int|
                0 <= j < r.len() ==> exists|m: int|
                    0 <= m < i && #[trigger] r@[j] == vs@[m] && r@[j] != v,
            forall|m: int| 0 <= m < i && #[trigger] vs@[m] != v ==> r@.contains(vs@[m]),
        decreases vs.len() - i,
    {
        let x = vs[i];
        let ghost before = r@;
        if x != v {
            assert forall|j: int| 0 <= j < r.len() implies r@[j] != x by {
                let m = choose|m: int| 0 <= m < i && #[trigger] r@[j] == vs@[m] && r@[j] != v;
            }
            r.push(x);
            assert forall|j: int| 0 <= j < r.len() implies exists|m: int|
                0 <= m < i + 1 && #[trigger] r@[j] == vs@[m] && r@[j] != v by {
                if j < before.len() {
                    assert(r@[j] == before[j]);
                } else {
                    assert(r@[j] == vs@[i as int]);
                }
            }
            assert forall|m: int| 0 <= m < i + 1 && #[trigger] vs@[m] != v implies r@.contains(
                vs@[m],
            ) by {
                if m < i {
                    let j = choose|j: int| 0 <= j < before.len() && before[j] == vs@[m];
                    assert(r@[j] == vs@[m]);
                } else {
                    assert(r@[before.len() as int] == vs@[m]);
                }
            }
        }
        i = i + 1;
    }
    assert forall|x: u64| r@.contains(x) <==> (vs@.contains(x) && x != v) by {
        if r@.contains(x) {
            let j = choose|j: int| 0 <= j < r.len() && r@[j] == x;
            let m = choose|m: int| 0 <= m < i && #[trigger] r@[j] == vs@[m] && r@[j] != v;
        }
        if vs@.contains(x) && x != v {
            let m = choose|m: int| 0 <= m < vs.len() && vs@[m] == x;
        }
    }
    r
}

impl View for BidirectionalMultimap {
    /// Each associated value mapped to its key.
    type V = Map<u64, u64>;

    closed spec fn view(&self) -> Map<u64, u64> {
        self.reverse@
    }
}

impl BidirectionalMultimap {
    /// The values of `k`, in the order in which `get_values` hands them out.
    pub closed spec fn values_of(&self, k: u64) -> Seq<u64> {
        if self.forward@.contains_key(k) {
            self.forward@[k]@
        } else {
            Seq::empty()
        }
    }

    /// Every value of a key is listed once, under that key and no other.
    pub closed spec fn wf(&self) -> bool {
        &&& forall|k: u64| #[trigger]
            self.forward@.contains_key(k) ==> self.forward@[k]@.no_duplicates()
        &&& forall|k: u64, v: u64|
            self.forward@.contains_key(k) && #[trigger] self.forward@[k]@.contains(v)
                ==> self.reverse@.contains_key(v) && self.reverse@[v] == k
        &&& forall|v: u64| #[trigger]
            self.reverse@.contains_key(v) ==> self.forward@.contains_key(self.reverse@[v])
                && self.forward@[self.reverse@[v]]@.contains(v)
    }

    /// What a well-formed map says of the values of a key.
    pub proof fn lemma_values_of(&self, k: u64)
        requires
            self.wf(),
        ensures
            self.values_of(k).no_duplicates(),
            forall|v: u64|
                #[trigger] self.values_of(k).contains(v) <==> (self@.contains_key(v) && self@[v]
                    == k),
    {
        assert forall|v: u64| #[trigger]
            self.values_of(k).contains(v) <==> (self@.contains_key(v) && self@[v] == k) by {
            if self.values_of(k).contains(v) {
                assert(self.forward@[k]@.contains(v));
            }
            if self@.contains_key(v) && self@[v] == k {
                assert(self.reverse@.contains_key(v));
            }
        }
    }

    pub fn new() -> (r: Self)
        ensures
            r.wf(),
            r@ == Map::<u64, u64>::empty(),
    {
        let r = BidirectionalMultimap { forward: HashMap::new(), reverse: HashMap::new() };
        assert(r@ =~= Map::<u64, u64>::empty());
        r
    }

    /// The values associated with `k`, empty if there are none.
    pub fn get_values(&self, k: u64) -> (r: Vec<u64>)
        requires
            self.wf(),
        ensures
            r@ == self.values_of(k),
            r@.no_duplicates(),
            forall|v: u64| #[trigger] r@.contains(v) <==> (self@.contains_key(v) && self@[v] == k),
    {
        proof {
            self.lemma_values_of(k);
        }
        match self.forward.get(&k) {
            Some(vs) => vs.clone(),
            None => Vec::new(),
        }
    }

    /// The key that `v` is associated with, if any.
    pub fn get_key(&self, v: u64) -> (r: Option<u64>)
        requires
            self.wf(),
        ensures
            r == (if self@.contains_key(v) {
                Some(self@[v])
            } else {
                None
            }),
    {
        match self.reverse.get(&v) {
            Some(k) => Some(*k),
            None => None,
        }
    }

    /// Associates `v` with `k`, taking it away from any key it had before.
    pub fn associate(&mut self, k: u64, v: u64)
        requires
            old(self).wf(),
        ensures
            final(self).wf(),
            final(self)@ == old(self)@.insert(v, k),
    {
        let mut vs: Vec<u64> = Vec::new();
        match self.reverse.get(&v) {
            Some(prev) => {
                let prev = *prev;
                if prev == k {
                    assert(self@ =~= old(self)@.insert(v, k));
                    return ;
                }
                let listed = self.forward.remove(&prev);
                let rest = without(&listed.unwrap(), v);
                self.forward.insert(prev, rest);
            },
            None => {},
        }
        let ghost mid = self.forward@;
        assert forall|k2: u64, w: u64|
            old(self).forward@.contains_key(k2) && #[trigger] old(self).forward@[k2]@.contains(w)
                && w != v implies mid.contains_key(k2) && mid[k2]@.contains(w) by {}
        match self.forward.remove(&k) {
            Some(listed) => {
                vs = listed;
            },
            None => {},
        }
        proof {
            assert(!vs@.contains(v));
        }
        let ghost pre = vs@;
        vs.push(v);
        self.forward.insert(k, vs);
        self.reverse.insert(v, k);
        proof {
            assert forall|k2: u64| #[trigger] self.forward@.contains_key(k2) implies self.forward@[
                k2
            ]@.no_duplicates() by {}
            assert forall|k2: u64, w: u64|
                self.forward@.contains_key(k2) && #[trigger] self.forward@[k2]@.contains(
                    w,
                ) implies self.reverse@.contains_key(w) && self.reverse@[w] == k2 by {
                if w != v {
                    if k2 == k {
                        assert(old(self).forward@[k]@.contains(w));
                    } else {
                        assert(old(self).forward@[k2]@.contains(w));
                    }
                }
            }
            assert forall|w: u64| #[trigger]
                self.reverse@.contains_key(w) implies self.forward@.contains_key(self.reverse@[w])
                && self.forward@[self.reverse@[w]]@.contains(w) by {
                if w != v {
                    assert(old(self).reverse@.contains_key(w));
                    let k2 = old(self).reverse@[w];
                    assert(old(self).forward@[k2]@.contains(w));
                    if k2 == k {
                        assert(mid[k]@.contains(w));
                        assert(pre == mid[k]@);
                        let j = choose|j: int| 0 <= j < pre.len() && pre[j] == w;
                        assert(self.forward@[k]@[j] == w);
                    } else {
                        assert(mid[k2]@.contains(w));
                    }
                } else {
                    assert(vs@.last() == v);
                    assert(self.forward@[k]@.contains(v));
                }
            }
            assert(self@ =~= old(self)@.insert(v, k));
        }
    }

    /// Removes `k` together with every value associated with it.
    pub fn remove_key(&mut self, k: u64)
        requires
            old(self).wf(),
        ensures
            final(self).wf(),
            final(self)@ == old(self)@.remove_keys(
                Set::new(|v: u64| old(self)@.contains_key(v) && old(self)@[v] == k),
            ),
    {
        let ghost gone = Set::new(|v: u64| old(self)@.contains_key(v) && old(self)@[v] == k);
        match self.forward.remove(&k) {
            Some(vs) => {
                let mut i: usize = 0;
                while i < vs.len()
                    invariant
                        i <= vs.len(),
                        vs@ == old(self).forward@[k]@,
                        old(self).wf(),
                        old(self).forward@.contains_key(k),
                        self.forward@ == old(self).forward@.remove(k),
                        self.reverse@ == old(self).reverse@.remove_keys(
                            vs@.subrange(0, i as int).to_set(),
                        ),
                    decreases vs.len() - i,
                {
                    let v = vs[i];
                    self.reverse.remove(&v);
                    assert(vs@.subrange(0, i + 1).to_set() =~= vs@.subrange(
                        0,
                        i as int,
                    ).to_set().insert(v)) by {
                        let a = vs@.subrange(0, i + 1);
                        let b = vs@.subrange(0, i as int);
                        assert(a =~= b.push(v));
                        assert forall|y: u64| a.contains(y) <==> (b.contains(y) || y == v) by {
                            if a.contains(y) && y != v {
                                let j = choose|j: int| 0 <= j < a.len() && a[j] == y;
                                assert(b[j] == y);
                            }
                            if b.contains(y) {
                                let j = choose|j: int| 0 <= j < b.len() && b[j] == y;
                                assert(a[j] == y);
                            }
                            if y == v {
                                assert(a[i as int] == v);
                            }
                        }
                    }
                    assert(self.reverse@ =~= old(self).reverse@.remove_keys(
                        vs@.subrange(0, i + 1).to_set(),
                    ));
                    i = i + 1;
                }
                assert(vs@.subrange(0, vs.len() as int) =~= vs@);
                assert(vs@.to_set() =~= gone) by {
                    assert forall|v: u64| vs@.to_set().contains(v) <==> gone.contains(v) by {
                        if gone.contains(v) {
                            assert(old(self).reverse@.contains_key(v));
                        }
                    }
                }
            },
            None => {
                assert(gone =~= Set::empty()) by {
                    assert forall|v: u64| !gone.contains(v) by {
                        if old(self).reverse@.contains_key(v) {
                            assert(old(self).forward@.contains_key(old(self).reverse@[v]));
                        }
                    }
                }
            },
        }
        proof {
            assert(self@ =~= old(self)@.remove_keys(gone));
            assert forall|k2: u64, v: u64|
                self.forward@.contains_key(k2) && #[trigger] self.forward@[k2]@.contains(
                    v,
                ) implies self.reverse@.contains_key(v) && self.reverse@[v] == k2 by {
                assert(old(self).forward@[k2]@.contains(v));
            }
            assert forall|v: u64| #[trigger]
                self.reverse@.contains_key(v) implies self.forward@.contains_key(self.reverse@[v])
                && self.forward@[self.reverse@[v]]@.contains(v) by {
                assert(old(self).reverse@.contains_key(v));
            }
        }
    }

    /// Removes `v` from the values of its key; nothing happens if it has none.
    pub fn remove_value(&mut self, v: u64)
        requires
            old(self).wf(),
        ensures
            final(self).wf(),
            final(self)@ == old(self)@.remove(v),
    {
        match self.reverse.remove(&v) {
            Some(k) => {
                let listed = self.forward.remove(&k);
                let rest = without(&listed.unwrap(), v);
                self.forward.insert(k, rest);
                proof {
                    assert forall|k2: u64, w: u64|
                        self.forward@.contains_key(k2) && #[trigger] self.forward@[k2]@.contains(
                            w,
                        ) implies self.reverse@.contains_key(w) && self.reverse@[w] == k2 by {
                        assert(old(self).forward@[k2]@.contains(w));
                    }
                    assert forall|w: u64| #[trigger]
                        self.reverse@.contains_key(w) implies self.forward@.contains_key(
                        self.reverse@[w],
                    ) && self.forward@[self.reverse@[w]]@.contains(w) by {
                        assert(old(self).reverse@.contains_key(w));
                    }
                }
            },
            None => {},
        }
        assert(self@ =~= old(self)@.remove(v));
    }
}

/// The relation that a run of `associate(k, v)` calls, one for each pair
/// `(k, v)` of `ops` in turn, leaves behind when started on `start`.
pub open spec fn associate_all(start: Map<u64, u64>, ops: Seq<(u64, u64)>) -> Map<u64, u64>
    decreases ops.len(),
{
    if ops.len() == 0 {
        start
    } else {
        associate_all(start, ops.drop_last()).insert(ops.last().1, ops.last().0)
    }
}

proof fn lemma_associate_all_latest(start: Map<u64, u64>, ops: Seq<(u64, u64)>, i: int)
    requires
        0 <= i < ops.len(),
        forall|j: int| i < j < ops.len() ==> #[trigger] ops[j].1 != ops[i].1,
    ensures
        associate_all(start, ops).contains_key(ops[i].1),
        associate_all(start, ops)[ops[i].1] == ops[i].0,
    decreases ops.len(),
{
    if i < ops.len() - 1 {
        let rest = ops.drop_last();
        assert forall|j: int| i < j < rest.len() implies #[trigger] rest[j].1 != rest[i].1 by {
            assert(rest[j] == ops[j]);
        }
        lemma_associate_all_latest(start, rest, i);
        assert(ops.last().1 != ops[i].1);
    }
}

/// After any run of associations, a value maps to the key it was associated
/// with last, and is listed among that key's values.
pub proof fn lemma_latest_association_wins(
    m: &BidirectionalMultimap,
    start: Map<u64, u64>,
    ops: Seq<(u64, u64)>,
    i: int,
)
    requires
        m.wf(),
        m@ == associate_all(start, ops),
        0 <= i < ops.len(),
        forall|j: int| i < j < ops.len() ==> #[trigger] ops[j].1 != ops[i].1,
    ensures
        m@.contains_key(ops[i].1),
        m@[ops[i].1] == ops[i].0,
        m.values_of(ops[i].0).contains(ops[i].1),
{
    lemma_associate_all_latest(start, ops, i);
    m.lemma_values_of(ops[i].0);
}

/// Once a key is removed it has no values, and none of the values it had
/// maps to any key.
pub proof fn lemma_removed_key_is_gone(
    before: &BidirectionalMultimap,
    after: &BidirectionalMultimap,
    k: u64,
)
    requires
        before.wf(),
        after.wf(),
        after@ == before@.remove_keys(
            Set::new(|v: u64| before@.contains_key(v) && before@[v] == k),
        ),
    ensures
        after.values_of(k).len() == 0,
        forall|v: u64| #[trigger] before.values_of(k).contains(v) ==> !after@.contains_key(v),
{
    before.lemma_values_of(k);
    after.lemma_values_of(k);
    if after.values_of(k).len() > 0 {
        let v = after.values_of(k)[0];
        assert(after.values_of(k).contains(v));
    }
}

} // verus!
