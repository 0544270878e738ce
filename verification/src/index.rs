//! The table of address points and the choice among the points that a
//! spatial search found.
//!
//! A spatial search over coordinates ends in a handful of candidates: each
//! names a record by its place in build order and carries its distance from
//! the query as an integer that orders as the distance does. The table keeps
//! the records and decides which candidate is the answer.

use crate::record::{models, MyPoint, PointModel};
use vstd::prelude::*;

verus! {

/// A point that a spatial search found for a query.
///
/// `slot` is the place of the record in build order. `distance` stands for the
/// squared great-circle distance between the record and the query: any integer
/// that grows with it serves, such as the bit pattern of a binary64 number that
/// is not negative.
#[derive(Clone, Copy, Debug, PartialEq, Eq)]
pub struct Candidate {
    pub slot: usize,
    pub distance: u64,
}

impl Candidate {
    /// Whether the candidate names a record of a table of `size` records.
    pub open spec fn admissible(self, size: nat) -> bool {
        self.slot < size
    }

    /// Whether `self` is to be preferred to `other`, or is the same candidate:
    /// it is nearer, or as near and no later in build order.
    pub open spec fn precedes(self, other: Candidate) -> bool {
        self.distance < other.distance || (self.distance == other.distance && self.slot
            <= other.slot)
    }
}

/// Whether `best` is among `candidates`, names a record of a table of `size`
/// records, and is preferred to every other candidate that names one.
pub open spec fn is_best(best: Candidate, candidates: Seq<Candidate>, size: nat) -> bool {
    &&& candidates.contains(best)
    &&& best.admissible(size)
    &&& forall|i: int|
        0 <= i < candidates.len() && (#[trigger] candidates[i]).admissible(size)
            ==> best.precedes(candidates[i])
}

/// The candidate that answers the query: the nearest of those that name a
/// record, the earliest in build order among equally near ones; `None` where no
/// candidate names a record.
pub open spec fn best_of(candidates: Seq<Candidate>, size: nat) -> Option<Candidate> {
    if exists|c: Candidate| is_best(c, candidates, size) {
        Some(choose|c: Candidate| is_best(c, candidates, size))
    } else {
        None
    }
}

/// The record that answers a query: that of the best candidate.
pub open spec fn nearest_model(records: Seq<PointModel>, candidates: Seq<Candidate>) -> Option<
    PointModel,
> {
    match best_of(candidates, records.len()) {
        Some(best) => Some(records[best.slot as int]),
        None => None,
    }
}

/// At most one candidate is the best: two that are both best are the same.
pub proof fn lemma_best_is_unique(a: Candidate, b: Candidate, candidates: Seq<Candidate>, size: nat)
    requires
        is_best(a, candidates, size),
        is_best(b, candidates, size),
    ensures
        a == b,
{
    let i = choose|i: int| 0 <= i < candidates.len() && candidates[i] == a;
    let j = choose|j: int| 0 <= j < candidates.len() && candidates[j] == b;
    assert(b.precedes(candidates[i]));
    assert(a.precedes(candidates[j]));
}

/// A candidate that is the best is the one that `best_of` gives.
pub proof fn lemma_best_of_is(best: Candidate, candidates: Seq<Candidate>, size: nat)
    requires
        is_best(best, candidates, size),
    ensures
        best_of(candidates, size) == Some(best),
{
    let chosen = choose|c: Candidate| is_best(c, candidates, size);
    lemma_best_is_unique(best, chosen, candidates, size);
}

/// Where some candidate names a record, one of them is the best.
pub proof fn lemma_best_exists(candidates: Seq<Candidate>, size: nat)
    requires
        exists|i: int| 0 <= i < candidates.len() && (#[trigger] candidates[i]).admissible(size),
    ensures
        best_of(candidates, size) matches Some(best) && is_best(best, candidates, size),
    decreases candidates.len(),
{
    let earlier = candidates.drop_last();
    let last = candidates.last();
    assert(forall|j: int| 0 <= j < earlier.len() ==> earlier[j] == candidates[j]);
    let best = if exists|i: int| 0 <= i < earlier.len() && (#[trigger] earlier[i]).admissible(size) {
        lemma_best_exists(earlier, size);
        let b = best_of(earlier, size).unwrap();
        let k = choose|k: int| 0 <= k < earlier.len() && earlier[k] == b;
        assert(candidates[k] == b);
        if last.admissible(size) && !b.precedes(last) {
            last
        } else {
            b
        }
    } else {
        last
    };
    assert(candidates[candidates.len() - 1] == last);
    assert forall|j: int|
        0 <= j < candidates.len() && (#[trigger] candidates[j]).admissible(size) implies best.precedes(
        candidates[j],
    ) by {
        if j < earlier.len() {
            assert(earlier[j].admissible(size));
        }
    }
    lemma_best_of_is(best, candidates, size);
}

/// What `best_of` gives is the best, and it gives `None` only where no
/// candidate names a record.
pub proof fn lemma_best_of_is_best(candidates: Seq<Candidate>, size: nat)
    ensures
        match best_of(candidates, size) {
            Some(best) => is_best(best, candidates, size),
            None => forall|i: int|
                0 <= i < candidates.len() ==> !(#[trigger] candidates[i]).admissible(size),
        },
{
    if exists|i: int| 0 <= i < candidates.len() && (#[trigger] candidates[i]).admissible(size) {
        lemma_best_exists(candidates, size);
    }
}

/// The better of the best so far and one more candidate.
pub open spec fn better_of(best: Option<Candidate>, next: Candidate, size: nat) -> Option<
    Candidate,
> {
    if !next.admissible(size) {
        best
    } else {
        match best {
            Some(b) => if b.precedes(next) {
                Some(b)
            } else {
                Some(next)
            },
            None => Some(next),
        }
    }
}

/// The best of a run of candidates and one more is the better of the best of
/// the run and that one.
pub proof fn lemma_best_of_push(candidates: Seq<Candidate>, next: Candidate, size: nat)
    ensures
        best_of(candidates.push(next), size) == better_of(best_of(candidates, size), next, size),
{
    let longer = candidates.push(next);
    lemma_best_of_is_best(candidates, size);
    lemma_best_of_is_best(longer, size);
    assert(longer[candidates.len() as int] == next);
    assert(forall|j: int| 0 <= j < candidates.len() ==> candidates[j] == longer[j]);
    match better_of(best_of(candidates, size), next, size) {
        Some(best) => {
            if best != next {
                let k = choose|k: int| 0 <= k < candidates.len() && candidates[k] == best;
                assert(longer[k] == best);
            }
            assert forall|j: int|
                0 <= j < longer.len() && (#[trigger] longer[j]).admissible(size) implies best.precedes(
                longer[j],
            ) by {
                if j < candidates.len() {
                    assert(candidates[j].admissible(size));
                }
            }
            lemma_best_of_is(best, longer, size);
        },
        None => {
            if best_of(longer, size) is Some {
                let k = choose|k: int|
                    0 <= k < longer.len() && longer[k] == best_of(longer, size).unwrap();
                if k < candidates.len() {
                    assert(candidates[k].admissible(size));
                }
            }
        },
    }
}

/// The answer minimizes the distance: no candidate that names a record is
/// nearer than the best, and none that is as near stands earlier in build
/// order. Where the candidates cover every record of the table, the best is
/// what a scan of the whole table finds.
pub proof fn lemma_nearest_minimizes_distance(
    candidates: Seq<Candidate>,
    size: nat,
    other: Candidate,
)
    requires
        candidates.contains(other),
        other.admissible(size),
    ensures
        best_of(candidates, size) matches Some(best) && best.distance <= other.distance && (
        best.distance == other.distance ==> best.slot <= other.slot),
{
    let k = choose|k: int| 0 <= k < candidates.len() && candidates[k] == other;
    assert(candidates[k].admissible(size));
    lemma_best_exists(candidates, size);
}

/// Whether some candidate names the record at `slot`.
pub open spec fn names(candidates: Seq<Candidate>, slot: int) -> bool {
    exists|i: int| 0 <= i < candidates.len() && (#[trigger] candidates[i]).slot == slot
}

/// Whether the candidates are a scan of the whole table: every record is named
/// by one of them.
pub open spec fn covers(candidates: Seq<Candidate>, size: nat) -> bool {
    forall|slot: int| 0 <= slot < size ==> #[trigger] names(candidates, slot)
}

/// A scan of a table that is not empty has an answer, and no record of the
/// table is nearer to the query than the answer.
pub proof fn lemma_scan_finds_the_nearest(candidates: Seq<Candidate>, size: nat)
    requires
        size > 0,
        covers(candidates, size),
    ensures
        best_of(candidates, size) matches Some(best) && forall|i: int|
            0 <= i < candidates.len() && (#[trigger] candidates[i]).admissible(size)
                ==> best.distance <= candidates[i].distance,
{
    assert(names(candidates, 0));
    let k = choose|k: int| 0 <= k < candidates.len() && (#[trigger] candidates[k]).slot == 0;
    assert(candidates[k].admissible(size));
    lemma_best_exists(candidates, size);
}

/// On an empty table no query has an answer, whatever the candidates.
pub proof fn lemma_empty_table_has_no_nearest(candidates: Seq<Candidate>)
    ensures
        best_of(candidates, 0) is None,
        nearest_model(Seq::empty(), candidates) is None,
{
}

/// A query at the place of a record gives that record the distance zero, and
/// the answer is then a record at distance zero: the record itself, or one at
/// the same place.
pub proof fn lemma_zero_distance_is_nearest(candidates: Seq<Candidate>, size: nat, own: Candidate)
    requires
        candidates.contains(own),
        own.admissible(size),
        own.distance == 0,
    ensures
        best_of(candidates, size) matches Some(best) && best.distance == 0,
{
    lemma_nearest_minimizes_distance(candidates, size, own);
}

/// The answer depends on nothing but the records of the table and the
/// candidates: the same query on the same table has the same answer each time.
pub proof fn lemma_nearest_is_determined(
    first: SpatialIndex,
    second: SpatialIndex,
    candidates: Seq<Candidate>,
    again: Seq<Candidate>,
)
    requires
        first@ == second@,
        candidates == again,
    ensures
        nearest_model(first@, candidates) == nearest_model(second@, again),
{
}

/// The address points of the service, in build order.
///
/// The table is filled once and never changed afterwards.
pub struct SpatialIndex {
    records: Vec<MyPoint>,
}

impl View for SpatialIndex {
    type V = Seq<PointModel>;

    closed spec fn view(&self) -> Seq<PointModel> {
        models(self.records@)
    }
}

impl SpatialIndex {
    /// Builds the table from all of `records` at once, keeping their order and
    /// every duplicate. No record at all is a valid input.
    pub fn build(records: Vec<MyPoint>) -> (index: SpatialIndex)
        ensures
            index@ == models(records@),
    {
        SpatialIndex { records }
    }

    /// The number of records.
    pub fn size(&self) -> (n: usize)
        ensures
            n == self@.len(),
    {
        self.records.len()
    }

    /// The records in build order: the place of each is its slot.
    pub fn records(&self) -> (all: &Vec<MyPoint>)
        ensures
            models(all@) == self@,
    {
        &self.records
    }

    /// The record that answers a query, given the candidates that the spatial
    /// search found for it: the record of the nearest candidate, and of the
    /// earliest in build order among equally near ones. Candidates that name no
    /// record of the table are passed over. The result is `None` exactly when
    /// no candidate names a record, as is the case for every query on an empty
    /// table.
    pub fn nearest(&self, candidates: &Vec<Candidate>) -> (found: Option<&MyPoint>)
        ensures
            match nearest_model(self@, candidates@) {
                Some(model) => found matches Some(p) && p@ == model,
                None => found is None,
            },
            found is None <==> forall|i: int|
                0 <= i < candidates.len() ==> !(#[trigger] candidates[i]).admissible(self@.len()),
    {
        let size = self.records.len();
        let mut best: Option<Candidate> = None;
        let mut i: usize = 0;
        proof {
            lemma_best_of_is_best(candidates@.take(0), size as nat);
        }
        while i < candidates.len()
            invariant
                i <= candidates.len(),
                size == self@.len(),
                best == best_of(candidates@.take(i as int), size as nat),
            decreases candidates.len() - i,
        {
            let next = candidates[i];
            proof {
                lemma_best_of_push(candidates@.take(i as int), next, size as nat);
                assert(candidates@.take(i as int).push(next) =~= candidates@.take(i + 1));
            }
            if next.slot < size {
                best = match best {
                    Some(b) if b.distance < next.distance || (b.distance == next.distance && b.slot
                        <= next.slot) => Some(b),
                    _ => Some(next),
                };
            }
            i += 1;
        }
        proof {
            assert(candidates@.take(i as int) =~= candidates@);
            lemma_best_of_is_best(candidates@, size as nat);
        }
        match best {
            Some(b) => {
                proof {
                    let k = choose|k: int| 0 <= k < candidates.len() && candidates[k] == b;
                    assert(candidates[k].admissible(size as nat));
                }
                Some(&self.records[b.slot])
            },
            None => None,
        }
    }
}

} // verus!
