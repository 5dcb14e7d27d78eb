//! Party identities and their order.

use std::cmp::Ordering;
use vstd::prelude::*;
use vstd::std_specs::cmp::PartialEqSpecImpl;
use vstd::std_specs::cmp::PartialOrdSpecImpl;

verus! {

/// Identity of a party: 32 bytes, the same in every session.
///
/// Identities are ordered as byte strings: the first byte in which two
/// identities differ decides.
#[derive(Clone, Copy, Debug, Eq, Ord, Hash)]
pub struct PartyIndex(pub [u8; 32]);

/// How one identity stands to another in their order.
#[derive(Clone, Copy, Debug, PartialEq, Eq, Structural)]
pub enum Rank {
    /// It comes first.
    Before,
    /// The two are the same identity.
    Same,
    /// It comes second.
    After,
}

impl PartyIndex {
    /// The two identities hold the same bytes at every index below `k`.
    pub open spec fn agrees_below(self, other: PartyIndex, k: int) -> bool {
        forall|j: int| 0 <= j < k ==> self.0[j] == other.0[j]
    }

    /// `k` is the first index in which the two differ, and `self` holds the
    /// smaller byte there.
    pub open spec fn precedes_at(self, other: PartyIndex, k: int) -> bool {
        &&& 0 <= k < 32
        &&& self.agrees_below(other, k)
        &&& self.0[k] < other.0[k]
    }

    /// `self` comes strictly before `other`.
    pub open spec fn precedes(self, other: PartyIndex) -> bool {
        exists|k: int| self.precedes_at(other, k)
    }

    /// No identity comes before itself.
    pub proof fn lemma_precedes_irreflexive(self)
        ensures
            !self.precedes(self),
    {
    }

    /// Of two identities at most one comes before the other.
    pub proof fn lemma_precedes_asymmetric(self, other: PartyIndex)
        requires
            self.precedes(other),
        ensures
            !other.precedes(self),
    {
        let k = choose|k: int| self.precedes_at(other, k);
        assert forall|m: int| !other.precedes_at(self, m) by {
            if other.precedes_at(self, m) {
                if m < k {
                    assert(self.0[m] == other.0[m]);
                } else if k < m {
                    assert(other.0[k] == self.0[k]);
                }
            }
        }
    }

    /// The order is transitive.
    pub proof fn lemma_precedes_transitive(self, middle: PartyIndex, other: PartyIndex)
        requires
            self.precedes(middle),
            middle.precedes(other),
        ensures
            self.precedes(other),
    {
        let k1 = choose|k: int| self.precedes_at(middle, k);
        let k2 = choose|k: int| middle.precedes_at(other, k);
        let k = if k1 <= k2 { k1 } else { k2 };
        assert(self.precedes_at(other, k));
    }

    /// Two identities that differ are ordered one way or the other.
    pub proof fn lemma_precedes_total(self, other: PartyIndex)
        ensures
            self == other || self.precedes(other) || other.precedes(self),
    {
        if self != other {
            self.lemma_first_difference(other, 32);
        }
    }

    /// Below any bound the two either agree or are ordered by an earlier byte.
    proof fn lemma_first_difference(self, other: PartyIndex, n: int)
        requires
            0 <= n <= 32,
        ensures
            self.agrees_below(other, n) || self.precedes(other) || other.precedes(self),
            n == 32 && self.agrees_below(other, n) ==> self == other,
        decreases n,
    {
        if n > 0 {
            self.lemma_first_difference(other, n - 1);
            if self.agrees_below(other, n - 1) {
                if self.0[n - 1] < other.0[n - 1] {
                    assert(self.precedes_at(other, n - 1));
                } else if other.0[n - 1] < self.0[n - 1] {
                    assert(other.agrees_below(self, n - 1));
                    assert(other.precedes_at(self, n - 1));
                }
            }
        }
        if n == 32 && self.agrees_below(other, n) {
            assert(self.0 =~= other.0);
        }
    }
}

impl PartialEq for PartyIndex {
    fn eq(&self, other: &Self) -> (same: bool) {
        let mut i: usize = 0;
        while i < 32
            invariant
                i <= 32,
                forall|j: int| 0 <= j < i ==> self.0[j] == other.0[j],
            decreases 32 - i,
        {
            if self.0[i] != other.0[i] {
                return false;
            }
            i += 1;
        }
        assert(self.0 =~= other.0);
        true
    }
}

impl PartialEqSpecImpl for PartyIndex {
    open spec fn obeys_eq_spec() -> bool {
        true
    }

    open spec fn eq_spec(&self, other: &Self) -> bool {
        *self == *other
    }
}

impl PartyIndex {
    /// How `self` stands to `other` in the order of identities.
    pub open spec fn rank(self, other: PartyIndex) -> Rank {
        if self.precedes(other) {
            Rank::Before
        } else if self == other {
            Rank::Same
        } else {
            Rank::After
        }
    }

    /// Compares two identities byte by byte, from the first byte on.
    pub fn compare(&self, other: &PartyIndex) -> (rank: Rank)
        ensures
            rank == self.rank(*other),
            rank == Rank::After ==> other.precedes(*self),
    {
        let mut i: usize = 0;
        while i < 32
            invariant
                i <= 32,
                self.agrees_below(*other, i as int),
            decreases 32 - i,
        {
            if self.0[i] < other.0[i] {
                assert(self.precedes_at(*other, i as int));
                return Rank::Before;
            }
            if self.0[i] > other.0[i] {
                proof {
                    assert(other.agrees_below(*self, i as int));
                    assert(other.precedes_at(*self, i as int));
                    other.lemma_precedes_asymmetric(*self);
                }
                return Rank::After;
            }
            i += 1;
        }
        proof {
            assert(self.0 =~= other.0);
            self.lemma_precedes_irreflexive();
        }
        Rank::Same
    }
}

impl PartialOrd for PartyIndex {
    fn partial_cmp(&self, other: &Self) -> (order: Option<Ordering>) {
        match self.compare(other) {
            Rank::Before => Some(Ordering::Less),
            Rank::Same => Some(Ordering::Equal),
            Rank::After => Some(Ordering::Greater),
        }
    }
}

impl PartialOrdSpecImpl for PartyIndex {
    open spec fn obeys_partial_cmp_spec() -> bool {
        true
    }

    open spec fn partial_cmp_spec(&self, other: &Self) -> Option<Ordering> {
        match self.rank(*other) {
            Rank::Before => Some(Ordering::Less),
            Rank::Same => Some(Ordering::Equal),
            Rank::After => Some(Ordering::Greater),
        }
    }
}

} // verus!
