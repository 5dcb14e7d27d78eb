//! The list of parties that take part in one computation.

use crate::identity::PartyIndex;
use crate::identity::Rank;
use vstd::prelude::*;
use vstd::std_specs::cmp::PartialOrdIs;
use vstd::std_specs::cmp::PartialOrdSpec;
use vstd::std_specs::convert::TryFromSpecImpl;

verus! {

/// The most parties a list can hold: positions are 16-bit.
pub const MAX_PARTIES: usize = 65535;

/// The element at `i` is strictly less than its successor.
pub open spec fn ascends_at<T: PartialOrd>(list: Seq<T>, i: int) -> bool {
    list[i].is_lt(&list[i + 1])
}

/// Every element is strictly less than its successor.
pub open spec fn strictly_sorted<T: PartialOrd>(list: Seq<T>) -> bool {
    forall|i: int| 0 <= i && i + 1 < list.len() ==> #[trigger] ascends_at(list, i)
}

/// Every identity comes strictly before all that follow it.
pub open spec fn strictly_ascending(list: Seq<PartyIndex>) -> bool {
    forall|i: int, j: int| 0 <= i < j < list.len() ==> list[i].precedes(list[j])
}

/// What a list of identities must fulfil to serve as a party list.
pub open spec fn valid_party_list(list: Seq<PartyIndex>) -> bool {
    &&& strictly_ascending(list)
    &&& list.len() <= MAX_PARTIES
}

/// The position of `identity` in `list`, if it occurs there.
pub open spec fn position_of(list: Seq<PartyIndex>, identity: PartyIndex) -> Option<u16> {
    if list.contains(identity) {
        Some(list.index_of(identity) as u16)
    } else {
        None
    }
}

/// The identity at `position` of `list`, if the list is that long.
pub open spec fn identity_at(list: Seq<PartyIndex>, position: u16) -> Option<PartyIndex> {
    if position < list.len() {
        Some(list[position as int])
    } else {
        None
    }
}

/// A list in which each identity comes before its successor is ascending
/// throughout, and the other way round.
pub proof fn lemma_sorted_is_ascending(list: Seq<PartyIndex>)
    ensures
        strictly_sorted(list) <==> strictly_ascending(list),
{
    if strictly_sorted(list) {
        assert forall|i: int, j: int| 0 <= i < j < list.len() implies list[i].precedes(
            list[j],
        ) by {
            lemma_ascends_between(list, i, j);
        }
    }
    if strictly_ascending(list) {
        assert forall|i: int| 0 <= i && i + 1 < list.len() implies #[trigger] ascends_at(
            list,
            i,
        ) by {
            assert(list[i].precedes(list[i + 1]));
        }
    }
}

proof fn lemma_ascends_between(list: Seq<PartyIndex>, i: int, j: int)
    requires
        strictly_sorted(list),
        0 <= i < j < list.len(),
    ensures
        list[i].precedes(list[j]),
    decreases j - i,
{
    assert(ascends_at(list, j - 1));
    if i < j - 1 {
        lemma_ascends_between(list, i, j - 1);
        list[i].lemma_precedes_transitive(list[j - 1], list[j]);
    }
}

/// In an ascending list no identity occurs twice.
pub proof fn lemma_ascending_is_distinct(list: Seq<PartyIndex>, i: int, j: int)
    requires
        strictly_ascending(list),
        0 <= i < list.len(),
        0 <= j < list.len(),
        list[i] == list[j],
    ensures
        i == j,
{
    list[i].lemma_precedes_irreflexive();
}

/// Looking up the identity found at a position leads back to that position.
pub proof fn lemma_position_of_identity_at(list: Seq<PartyIndex>, position: u16)
    requires
        valid_party_list(list),
        position < list.len(),
    ensures
        identity_at(list, position) == Some(list[position as int]),
        position_of(list, list[position as int]) == Some(position),
{
    let identity = list[position as int];
    assert(list.contains(identity));
    lemma_ascending_is_distinct(list, list.index_of(identity), position as int);
}

/// The position found for an identity of the list holds that identity.
pub proof fn lemma_identity_at_position_of(list: Seq<PartyIndex>, identity: PartyIndex)
    requires
        valid_party_list(list),
        list.contains(identity),
    ensures
        position_of(list, identity) is Some,
        identity_at(list, position_of(list, identity).unwrap()) == Some(identity),
{
}

/// Why a list of identities cannot serve as a party list.
#[derive(Clone, Copy, Debug, PartialEq, Eq, Structural)]
pub enum InvalidPartiesList {
    /// Some identity does not come strictly before its successor.
    NotSorted,
    /// The list holds more identities than there are positions.
    TooLarge,
}

/// Tells whether each element of `list` is strictly less than the next one.
pub fn is_strictly_sorted<T: Ord>(list: &[T]) -> (sorted: bool)
    ensures
        T::obeys_partial_cmp_spec() ==> sorted == strictly_sorted(list@),
{
    let mut i: usize = 1;
    while i < list.len()
        invariant
            1 <= i,
            T::obeys_partial_cmp_spec() ==> forall|k: int|
                0 <= k && k + 1 < i ==> #[trigger] ascends_at(list@, k),
        decreases list.len() - i,
    {
        if !(list[i - 1] < list[i]) {
            assert(T::obeys_partial_cmp_spec() ==> !ascends_at(list@, i - 1));
            return false;
        }
        i += 1;
    }
    true
}

/// List of the parties that take part in a computation.
///
/// The party at position `i` of the computation has the identity at index `i`.
/// The identities stand in ascending order, and there are at most
/// [`MAX_PARTIES`] of them. A list is made once and never changes.
#[derive(Debug)]
pub struct Parties(Vec<PartyIndex>);

impl View for Parties {
    type V = Seq<PartyIndex>;

    closed spec fn view(&self) -> Seq<PartyIndex> {
        self.0@
    }
}

impl Parties {
    #[verifier::type_invariant]
    spec fn well_formed(&self) -> bool {
        valid_party_list(self.0@)
    }

    /// Number of parties that take part in the computation.
    pub fn len(&self) -> (count: u16)
        ensures
            count == self@.len(),
            valid_party_list(self@),
    {
        proof {
            use_type_invariant(self);
        }
        self.0.len() as u16
    }

    /// Finds the position of `party_index` in the list.
    pub fn find(&self, party_index: &PartyIndex) -> (position: Option<u16>)
        ensures
            position == position_of(self@, *party_index),
            valid_party_list(self@),
    {
        proof {
            use_type_invariant(self);
        }
        let mut low: usize = 0;
        let mut high: usize = self.0.len();
        while low < high
            invariant
                low <= high <= self.0@.len(),
                valid_party_list(self.0@),
                forall|i: int| 0 <= i < low ==> self.0@[i].precedes(*party_index),
                forall|i: int| high <= i < self.0@.len() ==> party_index.precedes(self.0@[i]),
            decreases high - low,
        {
            let middle = low + (high - low) / 2;
            match self.0[middle].compare(party_index) {
                Rank::Same => {
                    proof {
                        assert(self.0@.contains(*party_index));
                        lemma_ascending_is_distinct(
                            self.0@,
                            self.0@.index_of(*party_index),
                            middle as int,
                        );
                    }
                    return Some(middle as u16);
                },
                Rank::Before => {
                    assert forall|i: int| 0 <= i < middle + 1 implies self.0@[i].precedes(
                        *party_index,
                    ) by {
                        if i < middle {
                            self.0@[i].lemma_precedes_transitive(
                                self.0@[middle as int],
                                *party_index,
                            );
                        }
                    }
                    low = middle + 1;
                },
                Rank::After => {
                    assert forall|i: int| middle <= i < self.0@.len() implies party_index.precedes(
                        self.0@[i],
                    ) by {
                        if middle < i {
                            party_index.lemma_precedes_transitive(
                                self.0@[middle as int],
                                self.0@[i],
                            );
                        }
                    }
                    high = middle;
                },
            }
        }
        proof {
            assert forall|i: int| 0 <= i < self.0@.len() implies self.0@[i] != *party_index by {
                party_index.lemma_precedes_irreflexive();
            }
        }
        None
    }

    /// Retrieves the identity of the party at position `index`.
    pub fn get(&self, index: u16) -> (identity: Option<&PartyIndex>)
        ensures
            match identity {
                Some(found) => identity_at(self@, index) == Some(*found),
                None => identity_at(self@, index) is None,
            },
            valid_party_list(self@),
    {
        proof {
            use_type_invariant(self);
        }
        if (index as usize) < self.0.len() {
            Some(&self.0[index as usize])
        } else {
            None
        }
    }

    /// The identities of the list, in the order of their positions.
    pub fn as_slice(&self) -> (list: &[PartyIndex])
        ensures
            list@ == self@,
            valid_party_list(self@),
    {
        proof {
            use_type_invariant(self);
        }
        self.0.as_slice()
    }
}

impl Clone for Parties {
    fn clone(&self) -> (copy: Self)
        ensures
            copy@ == self@,
    {
        proof {
            use_type_invariant(self);
        }
        let mut list: Vec<PartyIndex> = Vec::new();
        let mut i: usize = 0;
        while i < self.0.len()
            invariant
                i <= self.0@.len(),
                list@ == self.0@.take(i as int),
            decreases self.0@.len() - i,
        {
            list.push(self.0[i]);
            i += 1;
            assert(self.0@.take(i as int) == self.0@.take(i - 1).push(self.0@[i - 1]));
        }
        assert(self.0@.take(self.0@.len() as int) == self.0@);
        Parties(list)
    }
}

/// What building a party list from `list` gives.
pub open spec fn checked_party_list(list: Seq<PartyIndex>) -> Result<
    Seq<PartyIndex>,
    InvalidPartiesList,
> {
    if !strictly_ascending(list) {
        Err(InvalidPartiesList::NotSorted)
    } else if list.len() > MAX_PARTIES {
        Err(InvalidPartiesList::TooLarge)
    } else {
        Ok(list)
    }
}

/// A list in which some identity does not come strictly before its
/// successor is rejected as not sorted, whatever else it holds.
pub proof fn lemma_unsorted_pair_is_rejected(list: Seq<PartyIndex>, i: int)
    requires
        0 <= i,
        i + 1 < list.len(),
        !list[i].precedes(list[i + 1]),
    ensures
        checked_party_list(list) == Err::<Seq<PartyIndex>, _>(InvalidPartiesList::NotSorted),
{
}

/// An ascending list with more identities than there are positions is
/// rejected as too large.
pub proof fn lemma_oversized_list_is_rejected(list: Seq<PartyIndex>)
    requires
        strictly_ascending(list),
        list.len() > MAX_PARTIES,
    ensures
        checked_party_list(list) == Err::<Seq<PartyIndex>, _>(InvalidPartiesList::TooLarge),
{
}

/// Every other list is accepted as it stands.
pub proof fn lemma_valid_list_is_accepted(list: Seq<PartyIndex>)
    requires
        valid_party_list(list),
    ensures
        checked_party_list(list) == Ok::<_, InvalidPartiesList>(list),
{
}

impl TryFrom<Vec<PartyIndex>> for Parties {
    type Error = InvalidPartiesList;

    /// Makes a party list of `list`, or says why it cannot be one.
    fn try_from(list: Vec<PartyIndex>) -> (made: Result<Self, InvalidPartiesList>)
        ensures
            match made {
                Ok(parties) => checked_party_list(list@) == Ok::<_, InvalidPartiesList>(parties@),
                Err(reason) => checked_party_list(list@) == Err::<Seq<PartyIndex>, _>(reason),
            },
    {
        proof {
            lemma_sorted_is_ascending(list@);
        }
        if !is_strictly_sorted(list.as_slice()) {
            Err(InvalidPartiesList::NotSorted)
        } else if list.len() > MAX_PARTIES {
            Err(InvalidPartiesList::TooLarge)
        } else {
            Ok(Parties(list))
        }
    }
}

impl TryFromSpecImpl<Vec<PartyIndex>> for Parties {
    open spec fn obeys_try_from_spec() -> bool {
        true
    }

    closed spec fn try_from_spec(list: Vec<PartyIndex>) -> Result<Self, InvalidPartiesList> {
        match checked_party_list(list@) {
            Ok(_) => Ok(Parties(list)),
            Err(reason) => Err(reason),
        }
    }
}

} // verus!
