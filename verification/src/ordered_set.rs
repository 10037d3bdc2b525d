//! A sorted, deduplicated sequence of account identifiers backed by `Vec`.
//!
//! The backing vector is kept strictly ascending, so membership queries run
//! as binary searches and every element occurs at most once.

use vstd::prelude::*;

use crate::AccountId;

verus! {

/// Holds when `s` is strictly ascending: every element is smaller than all
/// elements after it, which also rules out duplicates.
pub open spec fn strictly_sorted(s: Seq<AccountId>) -> bool {
    forall|i: int, j: int| 0 <= i < j < s.len() ==> s[i] < s[j]
}

/// An ordered set backed by `Vec`.
#[derive(Clone, Debug, PartialEq, Eq)]
pub struct OrderedSet(pub Vec<AccountId>);

impl OrderedSet {
    /// Well-formedness: the backing vector is strictly ascending.
    pub open spec fn wf(self) -> bool {
        strictly_sorted(self.0@)
    }

    /// Create a new empty set.
    pub fn new() -> (r: OrderedSet)
        ensures
            r.wf(),
            r.0@ == Seq::<AccountId>::empty(),
    {
        OrderedSet(Vec::new())
    }

    /// Create a set from a `Vec`: the result holds exactly the distinct
    /// elements of `v`, in ascending order.
    pub fn from(v: Vec<AccountId>) -> (r: OrderedSet)
        ensures
            r.wf(),
            forall|x: AccountId| r.0@.contains(x) <==> v@.contains(x),
    {
        let mut r = OrderedSet::new();
        let mut i: usize = 0;
        while i < v.len()
            invariant
                i <= v@.len(),
                r.wf(),
                forall|x: AccountId| r.0@.contains(x) <==> v@.subrange(0, i as int).contains(x),
            decreases v@.len() - i,
        {
            let ghost prefix = v@.subrange(0, i as int);
            let _ = r.insert(v[i]);
            proof {
                assert(v@.subrange(0, i + 1 as int) =~= prefix.push(v@[i as int]));
                assert forall|x: AccountId|
                    prefix.push(v@[i as int]).contains(x) <==> (prefix.contains(x) || x == v@[i as int]) by {
                    if prefix.contains(x) {
                        let k = choose|k: int| 0 <= k < prefix.len() && prefix[k] == x;
                        assert(prefix.push(v@[i as int])[k] == x);
                    }
                    if x == v@[i as int] {
                        assert(prefix.push(v@[i as int])[prefix.len() as int] == x);
                    }
                    if prefix.push(v@[i as int]).contains(x) {
                        let k = choose|k: int|
                            0 <= k < prefix.push(v@[i as int]).len() && prefix.push(v@[i as int])[k] == x;
                        if k < prefix.len() {
                            assert(prefix[k] == x);
                        }
                    }
                }
            }
            i = i + 1;
        }
        proof {
            assert(v@.subrange(0, v@.len() as int) =~= v@);
        }
        r
    }

    /// Create a set from a `Vec` that is already strictly ascending: `v` is
    /// wrapped verbatim, without re-validating. The sortedness precondition
    /// is the caller's responsibility; it is what keeps later binary
    /// searches meaningful.
    pub fn from_sorted_set(v: Vec<AccountId>) -> (r: OrderedSet)
        requires
            strictly_sorted(v@),
        ensures
            r.wf(),
            r.0@ == v@,
    {
        OrderedSet(v)
    }

    /// Clear the set.
    pub fn clear(&mut self)
        ensures
            final(self).wf(),
            final(self).0@ == Seq::<AccountId>::empty(),
    {
        self.0.clear();
    }

    /// Binary search over the sorted backing vector: the index of `value`
    /// when present, else the position where it would be inserted.
    fn locate(&self, value: u64) -> (r: Result<usize, usize>)
        requires
            self.wf(),
        ensures
            match r {
                Ok(i) => i < self.0@.len() && self.0@[i as int] == value,
                Err(i) => {
                    &&& i <= self.0@.len()
                    &&& forall|k: int| 0 <= k < i ==> self.0@[k] < value
                    &&& forall|k: int| i <= k < self.0@.len() ==> self.0@[k] > value
                },
            },
    {
        let mut lo: usize = 0;
        let mut hi: usize = self.0.len();
        while lo < hi
            invariant
                lo <= hi <= self.0@.len(),
                strictly_sorted(self.0@),
                forall|k: int| 0 <= k < lo ==> self.0@[k] < value,
                forall|k: int| hi <= k < self.0@.len() ==> self.0@[k] > value,
            decreases hi - lo,
        {
            let mid: usize = lo + (hi - lo) / 2;
            if self.0[mid] < value {
                lo = mid + 1;
            } else if value < self.0[mid] {
                hi = mid;
            } else {
                return Ok(mid);
            }
        }
        Err(lo)
    }

    /// Insert an element, keeping the backing vector sorted.
    /// Return true if insertion happened.
    pub fn insert(&mut self, value: AccountId) -> (r: bool)
        requires
            old(self).wf(),
        ensures
            final(self).wf(),
            r == !old(self).0@.contains(value),
            forall|x: AccountId|
                final(self).0@.contains(x) <==> (old(self).0@.contains(x) || x == value),
            final(self).0@.len() == old(self).0@.len() + (if r { 1int } else { 0int }),
            !r ==> final(self).0@ == old(self).0@,
    {
        match self.locate(value) {
            Ok(i) => {
                proof {
                    assert(self.0@.contains(value));
                }
                false
            },
            Err(loc) => {
                proof {
                    assert forall|k: int| 0 <= k < self.0@.len() implies self.0@[k] != value by {}
                    assert(!self.0@.contains(value));
                    self.0@.insert_ensures(loc as int, value);
                }
                let ghost pre = self.0@;
                self.0.insert(loc, value);
                proof {
                    let post = self.0@;
                    assert forall|i: int, j: int| 0 <= i < j < post.len() implies post[i] < post[j] by {
                        if j < loc {
                            assert(post[i] == pre[i] && post[j] == pre[j]);
                        } else if j == loc {
                            assert(post[i] == pre[i] && pre[i] < value);
                        } else if i < loc {
                            assert(post[i] == pre[i] && post[j] == pre[j - 1]);
                        } else if i == loc {
                            assert(post[j] == pre[j - 1] && pre[j - 1] > value);
                        } else {
                            assert(post[i] == pre[i - 1] && post[j] == pre[j - 1]);
                        }
                    }
                    assert forall|x: AccountId| post.contains(x) <==> (pre.contains(x) || x == value) by {
                        if post.contains(x) {
                            let i = choose|i: int| 0 <= i < post.len() && post[i] == x;
                            if i < loc {
                                assert(pre[i] == x);
                            } else if i > loc {
                                assert(pre[i - 1] == x);
                            }
                        }
                        if pre.contains(x) {
                            let i = choose|i: int| 0 <= i < pre.len() && pre[i] == x;
                            if i < loc {
                                assert(post[i] == x);
                            } else {
                                assert(post[i + 1] == x);
                            }
                        }
                        if x == value {
                            assert(post[loc as int] == x);
                        }
                    }
                }
                true
            },
        }
    }

    /// Remove an element.
    /// Return true if removal happened.
    pub fn remove(&mut self, value: &AccountId) -> (r: bool)
        requires
            old(self).wf(),
        ensures
            final(self).wf(),
            r == old(self).0@.contains(*value),
            forall|x: AccountId|
                final(self).0@.contains(x) <==> (old(self).0@.contains(x) && x != *value),
            final(self).0@.len() + (if r { 1int } else { 0int }) == old(self).0@.len(),
            !r ==> final(self).0@ == old(self).0@,
    {
        match self.locate(*value) {
            Ok(loc) => {
                proof {
                    assert(self.0@.contains(*value));
                    self.0@.remove_ensures(loc as int);
                }
                let ghost pre = self.0@;
                let _ = self.0.remove(loc);
                proof {
                    let post = self.0@;
                    assert forall|i: int, j: int| 0 <= i < j < post.len() implies post[i] < post[j] by {
                        let pi: int = if i < loc { i } else { i + 1 };
                        let pj: int = if j < loc { j } else { j + 1 };
                        assert(post[i] == pre[pi] && post[j] == pre[pj]);
                    }
                    assert forall|x: AccountId| post.contains(x) <==> (pre.contains(x) && x != *value) by {
                        if post.contains(x) {
                            let i = choose|i: int| 0 <= i < post.len() && post[i] == x;
                            let pi: int = if i < loc { i } else { i + 1 };
                            assert(pre[pi] == x);
                            if x == *value {
                                assert(pre[pi] == pre[loc as int]);
                            }
                        }
                        if pre.contains(x) && x != *value {
                            let i = choose|i: int| 0 <= i < pre.len() && pre[i] == x;
                            if i < loc {
                                assert(post[i] == x);
                            } else {
                                assert(i > loc);
                                assert(post[i - 1] == x);
                            }
                        }
                    }
                }
                true
            },
            Err(_) => {
                proof {
                    assert forall|k: int| 0 <= k < self.0@.len() implies self.0@[k] != *value by {}
                }
                false
            },
        }
    }

    /// Return the index of `value` when the set contains it, else nothing.
    pub fn contains(&self, value: &AccountId) -> (r: Option<usize>)
        requires
            self.wf(),
        ensures
            r is Some <==> self.0@.contains(*value),
            match r {
                Some(i) => i < self.0@.len() && self.0@[i as int] == *value,
                None => !self.0@.contains(*value),
            },
    {
        match self.locate(*value) {
            Ok(i) => Some(i),
            Err(_) => {
                proof {
                    assert forall|k: int| 0 <= k < self.0@.len() implies self.0@[k] != *value by {}
                }
                None
            },
        }
    }
}

/// The ordered-set invariant: in every well-formed set the backing
/// sequence is strictly sorted and therefore free of duplicates.
pub proof fn lemma_ordered_set_invariant(s: OrderedSet)
    requires
        s.wf(),
    ensures
        strictly_sorted(s.0@),
        forall|i: int, j: int| 0 <= i < j < s.0@.len() ==> s.0@[i] != s.0@[j],
{
}

impl Default for OrderedSet {
    /// Create a default empty set.
    fn default() -> (r: OrderedSet)
        ensures
            r.wf(),
            r.0@ == Seq::<AccountId>::empty(),
    {
        OrderedSet::new()
    }
}

} // verus!
