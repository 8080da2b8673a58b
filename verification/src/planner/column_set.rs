//! A finite set of column identifiers.

use vstd::prelude::*;

verus! {

/// The identifier of a column in the metadata of a query.
pub type IndexType = usize;

/// A set of column identifiers, kept as a strictly increasing vector, so
/// that a set has exactly one representation and a least element that is
/// found at once.
#[derive(Debug, PartialEq, Eq)]
pub struct ColumnSet {
    columns: Vec<IndexType>,
}

/// Whether `s` is strictly increasing.
pub open spec fn strictly_increasing(s: Seq<IndexType>) -> bool {
    forall|i: int, j: int| 0 <= i < j < s.len() ==> s[i] < s[j]
}

impl View for ColumnSet {
    type V = Set<IndexType>;

    closed spec fn view(&self) -> Set<IndexType> {
        self.columns@.to_set()
    }
}

/// The least element of a set of identifiers: a member that no member is
/// below.
pub open spec fn is_least(s: Set<IndexType>, x: IndexType) -> bool {
    s.contains(x) && forall|y: IndexType| s.contains(y) ==> x <= y
}

impl ColumnSet {
    #[verifier::type_invariant]
    spec fn well_formed(self) -> bool {
        strictly_increasing(self.columns@)
    }

    /// The empty set.
    pub fn new() -> (r: ColumnSet)
        ensures
            r@ == Set::<IndexType>::empty(),
    {
        let r = ColumnSet { columns: Vec::new() };
        assert(r@ =~= Set::<IndexType>::empty());
        r
    }

    /// The set that holds `x` alone.
    pub fn singleton(x: IndexType) -> (r: ColumnSet)
        ensures
            r@ == Set::<IndexType>::empty().insert(x),
    {
        let mut columns: Vec<IndexType> = Vec::new();
        columns.push(x);
        let r = ColumnSet { columns };
        assert(r.columns@[0] == x);
        assert(r@ =~= Set::<IndexType>::empty().insert(x));
        r
    }

    /// The number of members.
    pub fn len(&self) -> (n: usize)
        ensures
            self@.finite(),
            n == self@.len(),
            n == 0 <==> self@ == Set::<IndexType>::empty(),
    {
        proof {
            use_type_invariant(self);
            self.columns@.unique_seq_to_set();
            if self.columns.len() > 0 {
                assert(self.columns@.contains(self.columns@[0]));
                assert(self@.contains(self.columns@[0]));
            } else {
                assert(self@ =~= Set::<IndexType>::empty());
            }
        }
        self.columns.len()
    }

    pub fn is_empty(&self) -> (r: bool)
        ensures
            r == (self@ == Set::<IndexType>::empty()),
    {
        self.len() == 0
    }

    /// Whether `x` is a member.
    pub fn contains(&self, x: IndexType) -> (r: bool)
        ensures
            r == self@.contains(x),
    {
        let mut i: usize = 0;
        while i < self.columns.len()
            invariant
                i <= self.columns.len(),
                forall|j: int| 0 <= j < i ==> self.columns[j] != x,
            decreases self.columns.len() - i,
        {
            if self.columns[i] == x {
                assert(self.columns@.contains(x));
                return true;
            }
            i += 1;
        }
        false
    }

    /// The least member, `None` for the empty set.
    pub fn first(&self) -> (r: Option<IndexType>)
        ensures
            r is None <==> self@ == Set::<IndexType>::empty(),
            r matches Some(x) ==> is_least(self@, x),
    {
        proof {
            use_type_invariant(self);
        }
        if self.columns.len() == 0 {
            assert(self@ =~= Set::<IndexType>::empty());
            None
        } else {
            let x = self.columns[0];
            assert(self.columns@.contains(x));
            assert forall|y: IndexType| self@.contains(y) implies x <= y by {
                let k = choose|k: int| 0 <= k < self.columns@.len() && self.columns@[k] == y;
                assert(self.columns@[k] == y);
            }
            assert(self@.contains(x));
            Some(x)
        }
    }

    /// Adds `x` to the set.
    pub fn insert(&mut self, x: IndexType)
        ensures
            final(self)@ == old(self)@.insert(x),
    {
        proof {
            use_type_invariant(&*self);
        }
        let ghost before = self.columns@;
        let mut i: usize = 0;
        while i < self.columns.len() && self.columns[i] < x
            invariant
                i <= self.columns.len(),
                self.columns@ == before,
                forall|j: int| 0 <= j < i ==> self.columns[j] < x,
            decreases self.columns.len() - i,
        {
            i += 1;
        }
        if i < self.columns.len() && self.columns[i] == x {
            assert(before.contains(x));
            assert(self@ =~= old(self)@.insert(x));
        } else {
            let mut columns = self.columns.clone();
            assert(columns@ =~= before);
            columns.insert(i, x);
            let ghost after = columns@;
            assert(after == before.insert(i as int, x));
            assert forall|a: int, b: int| 0 <= a < b < after.len() implies after[a] < after[b] by {
                if b < i {
                    assert(after[a] == before[a] && after[b] == before[b]);
                } else if b == i {
                    assert(after[a] == before[a]);
                } else if a == i {
                    assert(after[b] == before[b - 1]);
                } else if a < i {
                    assert(after[a] == before[a] && after[b] == before[b - 1]);
                } else {
                    assert(after[a] == before[a - 1] && after[b] == before[b - 1]);
                }
            }
            assert forall|y: IndexType| after.contains(y) <==> (before.contains(y) || y == x) by {
                if after.contains(y) {
                    let k = choose|k: int| 0 <= k < after.len() && after[k] == y;
                    if k < i {
                        assert(before[k] == y);
                    } else if k > i {
                        assert(before[k - 1] == y);
                    }
                }
                if before.contains(y) {
                    let k = choose|k: int| 0 <= k < before.len() && before[k] == y;
                    if k < i {
                        assert(after[k] == y);
                    } else {
                        assert(after[k + 1] == y);
                    }
                }
                if y == x {
                    assert(after[i as int] == y);
                }
            }
            *self = ColumnSet { columns };
            assert(self@ =~= old(self)@.insert(x));
        }
    }

    /// The members of `self` together with those of `other`.
    pub fn union(&self, other: &ColumnSet) -> (r: ColumnSet)
        ensures
            r@ == self@.union(other@),
    {
        let mut r = self.clone();
        let mut i: usize = 0;
        while i < other.columns.len()
            invariant
                i <= other.columns.len(),
                forall|y: IndexType|
                    r@.contains(y) <==> (self@.contains(y) || exists|j: int|
                        0 <= j < i && other.columns@[j] == y),
            decreases other.columns.len() - i,
        {
            let ghost prev = r@;
            r.insert(other.columns[i]);
            assert forall|y: IndexType|
                r@.contains(y) <==> (self@.contains(y) || exists|j: int|
                    0 <= j < i + 1 && other.columns@[j] == y) by {
                if y == other.columns@[i as int] {
                    assert(0 <= i < i + 1 && other.columns@[i as int] == y);
                }
                if exists|j: int| 0 <= j < i + 1 && other.columns@[j] == y {
                    let j = choose|j: int| 0 <= j < i + 1 && other.columns@[j] == y;
                    if j < i {
                        assert(0 <= j < i && other.columns@[j] == y);
                    }
                }
            }
            i += 1;
        }
        assert forall|y: IndexType| r@.contains(y) <==> self@.union(other@).contains(y) by {
            if other@.contains(y) {
                let k = choose|k: int| 0 <= k < other.columns@.len() && other.columns@[k] == y;
                assert(0 <= k < i && other.columns@[k] == y);
            }
        }
        assert(r@ =~= self@.union(other@));
        r
    }

    /// The members of `self` that `keep_in` says to keep: those that are in
    /// `other` where `keep_in` is true, those that are not where it is false.
    fn select(&self, other: &ColumnSet, keep_in: bool) -> (r: ColumnSet)
        ensures
            forall|y: IndexType| r@.contains(y) <==> (self@.contains(y) && (other@.contains(y) == keep_in)),
    {
        proof {
            use_type_invariant(self);
        }
        let mut out: Vec<IndexType> = Vec::new();
        let mut i: usize = 0;
        while i < self.columns.len()
            invariant
                i <= self.columns.len(),
                strictly_increasing(self.columns@),
                strictly_increasing(out@),
                forall|k: int| 0 <= k < out.len() ==> exists|j: int| 0 <= j < i && self.columns@[j] == #[trigger] out@[k],
                forall|j: int|
                    0 <= j < i && (other@.contains(#[trigger] self.columns@[j]) == keep_in) ==> out@.contains(
                        self.columns@[j],
                    ),
                forall|k: int| 0 <= k < out.len() ==> other@.contains(#[trigger] out@[k]) == keep_in,
            decreases self.columns.len() - i,
        {
            let x = self.columns[i];
            if other.contains(x) == keep_in {
                let ghost prev = out@;
                out.push(x);
                assert forall|a: int, b: int| 0 <= a < b < out.len() implies out@[a] < out@[b] by {
                    if b == out.len() - 1 {
                        let j = choose|j: int| 0 <= j < i && self.columns@[j] == prev[a];
                        assert(self.columns@[j] < self.columns@[i as int]);
                    } else {
                        assert(out@[a] == prev[a] && out@[b] == prev[b]);
                    }
                }
                assert forall|k: int| 0 <= k < out.len() implies exists|j: int|
                    0 <= j < i + 1 && self.columns@[j] == #[trigger] out@[k] by {
                    if k == out.len() - 1 {
                        assert(self.columns@[i as int] == out@[k]);
                    } else {
                        let j = choose|j: int| 0 <= j < i && self.columns@[j] == prev[k];
                        assert(self.columns@[j] == out@[k]);
                    }
                }
                assert forall|j: int|
                    0 <= j < i + 1 && (other@.contains(#[trigger] self.columns@[j]) == keep_in) implies out@.contains(
                    self.columns@[j],
                ) by {
                    if j == i {
                        assert(out@[out.len() - 1] == self.columns@[j]);
                    } else {
                        assert(prev.contains(self.columns@[j]));
                        let k = choose|k: int| 0 <= k < prev.len() && prev[k] == self.columns@[j];
                        assert(out@[k] == self.columns@[j]);
                    }
                }
            }
            i += 1;
        }
        let r = ColumnSet { columns: out };
        assert forall|y: IndexType| r@.contains(y) <==> (self@.contains(y) && (other@.contains(y) == keep_in)) by {
            if r@.contains(y) {
                let k = choose|k: int| 0 <= k < out@.len() && out@[k] == y;
                let j = choose|j: int| 0 <= j < i && self.columns@[j] == out@[k];
                assert(self.columns@.contains(y));
            }
            if self@.contains(y) && (other@.contains(y) == keep_in) {
                let j = choose|j: int| 0 <= j < self.columns@.len() && self.columns@[j] == y;
                assert(out@.contains(self.columns@[j]));
            }
        }
        r
    }

    /// The members of `self` that are not in `other`.
    pub fn difference(&self, other: &ColumnSet) -> (r: ColumnSet)
        ensures
            r@ == self@.difference(other@),
    {
        let r = self.select(other, false);
        assert(r@ =~= self@.difference(other@));
        r
    }

    /// The members of `self` that are in `other` too.
    pub fn intersection(&self, other: &ColumnSet) -> (r: ColumnSet)
        ensures
            r@ == self@.intersect(other@),
    {
        let r = self.select(other, true);
        assert(r@ =~= self@.intersect(other@));
        r
    }

    /// Whether every member of `self` is in `other`.
    pub fn is_subset(&self, other: &ColumnSet) -> (r: bool)
        ensures
            r == self@.subset_of(other@),
    {
        let mut i: usize = 0;
        while i < self.columns.len()
            invariant
                i <= self.columns.len(),
                forall|j: int| 0 <= j < i ==> other@.contains(#[trigger] self.columns@[j]),
            decreases self.columns.len() - i,
        {
            if !other.contains(self.columns[i]) {
                assert(self.columns@.contains(self.columns@[i as int]));
                return false;
            }
            i += 1;
        }
        assert forall|y: IndexType| self@.contains(y) implies other@.contains(y) by {
            let j = choose|j: int| 0 <= j < self.columns@.len() && self.columns@[j] == y;
            assert(other@.contains(self.columns@[j]));
        }
        true
    }

    /// Whether the two sets have the same members.
    pub fn same(&self, other: &ColumnSet) -> (r: bool)
        ensures
            r == (self@ == other@),
    {
        let r = self.is_subset(other) && other.is_subset(self);
        proof {
            if r {
                assert(self@ =~= other@);
            }
        }
        r
    }

    /// The members in increasing order.
    pub fn to_vec(&self) -> (v: Vec<IndexType>)
        ensures
            strictly_increasing(v@),
            v@.to_set() == self@,
    {
        proof {
            use_type_invariant(self);
        }
        let v = self.columns.clone();
        assert(v@ =~= self.columns@);
        v
    }
}

impl Clone for ColumnSet {
    fn clone(&self) -> (r: ColumnSet)
        ensures
            r@ == self@,
    {
        proof {
            use_type_invariant(self);
        }
        let columns = self.columns.clone();
        assert(columns@ =~= self.columns@);
        ColumnSet { columns }
    }
}

} // verus!
