//! The orchestrator: the conflict-safe write transaction and the
//! lock-free read path.
//!
//! A write (`AddLocation`) must make its check-then-insert sequence atomic
//! across processes: index the coordinate, lock every candidate cell in
//! ascending order, fetch the existing records of those cells, reject if
//! any lies within the radius, insert otherwise, and release every lock
//! on every exit path.
//!
//! The lock store and the document store are reached over the network, so
//! the transaction is driven as a state machine: [`AddTransaction::begin`]
//! and [`AddTransaction::step`] make every decision and say, as an
//! [`AddAction`], what outside work to perform next; the driver performs
//! it and answers with an [`AddEvent`].  The decisions — which keys to
//! lock and in what order, when a candidate forces a `Conflict`, and that
//! a release precedes every way of finishing once locks are held — are
//! verified here, whatever the driver's backends do.

use vstd::prelude::*;

use crate::error::GeoError;
use crate::indexer::H3Indexer;
use crate::indexer::MAX_DISTANCE_M;
use crate::indexer::MAX_RING_COUNT;
use crate::indexer::grid_disk_of;
use crate::indexer::h3_cell_valid;
use crate::indexer::spec_neighbor_k;
use crate::locktable::strictly_sorted;
use crate::models::LocationCommand;
use crate::models::LocationCommandView;
use crate::models::LocationQuery;
use crate::models::LocationView;

verus! {

/// Some fetched candidate lies within the radius: the spatial-exclusion
/// invariant would be violated.
pub open spec fn spec_conflict(distances_m: Seq<u64>, threshold_m: u64) -> bool {
    exists|i: int| 0 <= i < distances_m.len() && distances_m[i] <= threshold_m
}

/// Decide the exclusion check from the exact distances of the fetched
/// candidates: a conflict exactly when some candidate lies within
/// `threshold_m` metres.
pub fn conflict_exists(distances_m: &Vec<u64>, threshold_m: u64) -> (r: bool)
    ensures
        r == spec_conflict(distances_m@, threshold_m),
{
    let mut i: usize = 0;
    while i < distances_m.len()
        invariant
            i <= distances_m@.len(),
            !spec_conflict(distances_m@.subrange(0, i as int), threshold_m),
        decreases distances_m@.len() - i,
    {
        if distances_m[i] <= threshold_m {
            assert(distances_m@[i as int] <= threshold_m);
            return true;
        }
        assert(distances_m@.subrange(0, i as int + 1) =~= distances_m@.subrange(
            0,
            i as int,
        ).push(distances_m@[i as int]));
        i = i + 1;
    }
    assert(distances_m@.subrange(0, distances_m@.len() as int) =~= distances_m@);
    false
}

/// Copy a key list.
fn copy_keys(keys: &Vec<u64>) -> (r: Vec<u64>)
    ensures
        r@ == keys@,
{
    let mut r: Vec<u64> = Vec::new();
    let mut i: usize = 0;
    while i < keys.len()
        invariant
            i <= keys@.len(),
            r@ == keys@.subrange(0, i as int),
        decreases keys@.len() - i,
    {
        r.push(keys[i]);
        assert(keys@.subrange(0, i as int + 1) =~= keys@.subrange(0, i as int).push(
            keys@[i as int],
        ));
        i = i + 1;
    }
    assert(keys@.subrange(0, keys@.len() as int) =~= keys@);
    r
}

/// Where the write transaction stands.
#[derive(Debug)]
pub enum AddPhase {
    /// The lock set is being acquired.
    Locking,
    /// Locks are held; the candidate records are being fetched.
    Checking,
    /// No candidate lay within the radius; the record is being inserted.
    Inserting,
    /// Locks are being released; the outcome is settled and will be
    /// delivered once the release is confirmed.
    Releasing { outcome: Result<String, GeoError> },
    /// The transaction is over; its outcome went out with the `Finish`
    /// action.
    Finished,
}

/// What the driver must do next.
#[derive(Debug)]
pub enum AddAction {
    /// Acquire every key, in the given (ascending) order; on failure
    /// release whatever was acquired before answering.
    AcquireAll { keys: Vec<u64> },
    /// Fetch the records stored in the given cells and answer with the
    /// distance of each one from the transaction's coordinate.
    FetchCandidates { keys: Vec<u64> },
    /// Insert the record and answer with its store-assigned identifier.
    Insert { command: LocationCommand },
    /// Release every key of the lock set.
    ReleaseAll { keys: Vec<u64> },
    /// Deliver the outcome to the caller; the transaction is over.
    Finish { outcome: Result<String, GeoError> },
}

/// What the outside work answered.
#[derive(Debug)]
pub enum AddEvent {
    /// Every key of the lock set is held.
    Locked,
    /// The lock set could not be acquired; nothing is held.
    LockFailed { error: GeoError },
    /// The distance, in metres, of every record found in the candidate
    /// cells.
    CandidateDistances { distances_m: Vec<u64> },
    /// The store could not deliver the candidates.
    FetchFailed { error: GeoError },
    /// The record was inserted under this store-assigned identifier.
    Inserted { id: String },
    /// The store refused the insert.
    InsertFailed { error: GeoError },
    /// Every key of the lock set was released.
    Released,
}

/// A phase in which the transaction holds its lock set.  `Releasing`
/// still counts: the keys are held until the driver confirms the
/// release.
pub open spec fn phase_holds_locks(phase: AddPhase) -> bool {
    match phase {
        AddPhase::Checking => true,
        AddPhase::Inserting => true,
        AddPhase::Releasing { .. } => true,
        AddPhase::Locking => false,
        AddPhase::Finished => false,
    }
}

/// The phase after one event, at conflict threshold `threshold_m`.  An
/// event that does not answer the phase's pending action changes
/// nothing.
pub open spec fn phase_after(phase: AddPhase, threshold_m: u64, event: AddEvent) -> AddPhase {
    match phase {
        AddPhase::Locking => match event {
            AddEvent::Locked => AddPhase::Checking,
            AddEvent::LockFailed { .. } => AddPhase::Finished,
            _ => phase,
        },
        AddPhase::Checking => match event {
            AddEvent::CandidateDistances { distances_m } => {
                if spec_conflict(distances_m@, threshold_m) {
                    AddPhase::Releasing { outcome: Err(GeoError::Conflict) }
                } else {
                    AddPhase::Inserting
                }
            },
            AddEvent::FetchFailed { error } => AddPhase::Releasing { outcome: Err(error) },
            _ => phase,
        },
        AddPhase::Inserting => match event {
            AddEvent::Inserted { id } => AddPhase::Releasing { outcome: Ok(id) },
            AddEvent::InsertFailed { error } => AddPhase::Releasing { outcome: Err(error) },
            _ => phase,
        },
        AddPhase::Releasing { .. } => match event {
            AddEvent::Released => AddPhase::Finished,
            _ => phase,
        },
        AddPhase::Finished => phase,
    }
}

/// The phase after a whole event sequence.
pub open spec fn phase_after_run(phase: AddPhase, threshold_m: u64, events: Seq<AddEvent>) -> AddPhase
    decreases events.len(),
{
    if events.len() == 0 {
        phase
    } else {
        phase_after_run(
            phase_after(phase, threshold_m, events[0]),
            threshold_m,
            events.subrange(1, events.len() as int),
        )
    }
}

/// One write transaction.
#[derive(Debug)]
pub struct AddTransaction {
    command: LocationCommand,
    distance_m: u64,
    lock_set: Vec<u64>,
    phase: AddPhase,
}

impl AddTransaction {
    /// The write request the transaction carries.
    pub closed spec fn spec_command(self) -> LocationCommandView {
        self.command@
    }

    /// The conflict radius, in metres.
    pub closed spec fn spec_distance_m(self) -> u64 {
        self.distance_m
    }

    /// The sorted, deduplicated candidate cells the transaction locks.
    pub closed spec fn spec_lock_set(self) -> Seq<u64> {
        self.lock_set@
    }

    /// Where the transaction stands.
    pub closed spec fn spec_phase(self) -> AddPhase {
        self.phase
    }

    /// The lock set is canonical and covers the record's own cell.
    pub open spec fn wf(self) -> bool {
        strictly_sorted(self.spec_lock_set()) && self.spec_lock_set().contains(
            self.spec_command().geo_index,
        )
    }

    /// The transaction currently holds its lock set.
    pub open spec fn holds_locks(self) -> bool {
        phase_holds_locks(self.spec_phase())
    }

    /// The event answers the phase's pending action.
    pub open spec fn expects(self, event: AddEvent) -> bool {
        match self.spec_phase() {
            AddPhase::Locking => event is Locked || event is LockFailed,
            AddPhase::Checking => event is CandidateDistances || event is FetchFailed,
            AddPhase::Inserting => event is Inserted || event is InsertFailed,
            AddPhase::Releasing { .. } => event is Released,
            AddPhase::Finished => false,
        }
    }

    /// Open a write transaction: index the radius into the candidate
    /// cells around the record's cell, canonicalise them into the lock
    /// set, and ask the driver to acquire it.  Fails exactly on a value
    /// that is no cell identifier.  The coordinate is validated at the
    /// transport boundary, not here: the core takes it as given.
    pub fn begin(indexer: &H3Indexer, command: LocationCommand, distance_m: u64) -> (r: Result<
        (AddTransaction, AddAction),
        GeoError,
    >)
        requires
            indexer.wf(),
            command.wf(),
            distance_m <= MAX_DISTANCE_M,
            spec_neighbor_k(indexer.spec_resolution(), distance_m) <= MAX_RING_COUNT,
        ensures
            (r is Ok) == h3_cell_valid(command.geo_index),
            r is Err ==> r.unwrap_err() == GeoError::Config,
            r is Ok ==> r.unwrap().0.wf(),
            r is Ok ==> r.unwrap().0.spec_phase() is Locking,
            r is Ok ==> r.unwrap().0.spec_command() == command@,
            r is Ok ==> r.unwrap().0.spec_distance_m() == distance_m,
            r is Ok ==> forall|c: u64|
                r.unwrap().0.spec_lock_set().contains(c) <==> grid_disk_of(
                    command.geo_index,
                    spec_neighbor_k(indexer.spec_resolution(), distance_m) as u32,
                ).contains(c),
            r is Ok ==> (r.unwrap().1 matches AddAction::AcquireAll { keys } && keys@ == r.unwrap()
                .0.spec_lock_set()),
    {
        let cell = command.geo_index;
        match indexer.neighbors(cell, distance_m) {
            Ok(cells) => {
                let keys = copy_keys(&cells);
                let txn = AddTransaction {
                    command,
                    distance_m,
                    lock_set: cells,
                    phase: AddPhase::Locking,
                };
                Ok((txn, AddAction::AcquireAll { keys }))
            },
            Err(e) => Err(e),
        }
    }

    /// Advance by one answered event and say what to do next.
    ///
    /// The contract walks every edge of the protocol: a lock failure
    /// finishes at once with nothing held (the acquire rolled itself
    /// back); a candidate within the radius settles `Conflict` and, like
    /// an insert success or an insert failure, leads into `Releasing` —
    /// the locks are let go on every such path before the outcome is
    /// delivered by `Finish`.
    pub fn step(&mut self, event: AddEvent) -> (action: AddAction)
        requires
            old(self).wf(),
            old(self).expects(event),
        ensures
            final(self).wf(),
            final(self).spec_command() == old(self).spec_command(),
            final(self).spec_distance_m() == old(self).spec_distance_m(),
            final(self).spec_lock_set() == old(self).spec_lock_set(),
            final(self).spec_phase() == phase_after(
                old(self).spec_phase(),
                old(self).spec_distance_m(),
                event,
            ),
            (old(self).spec_phase() is Locking && event is Locked) ==> (action matches
                AddAction::FetchCandidates { keys } && keys@ == old(self).spec_lock_set()),
            old(self).spec_phase() is Locking ==> (event matches AddEvent::LockFailed { error }
                ==> (action matches AddAction::Finish { outcome } && outcome == Err::<
                String,
                GeoError,
            >(error))),
            old(self).spec_phase() is Checking ==> (event matches AddEvent::CandidateDistances {
                distances_m,
            } ==> ((spec_conflict(distances_m@, old(self).spec_distance_m()) ==> (action matches
                AddAction::ReleaseAll { keys } && keys@ == old(self).spec_lock_set())) && (
            !spec_conflict(distances_m@, old(self).spec_distance_m()) ==> (action matches
                AddAction::Insert { command } && command@ == old(self).spec_command())))),
            (old(self).spec_phase() is Checking && event is FetchFailed) ==> (action matches
                AddAction::ReleaseAll { keys } && keys@ == old(self).spec_lock_set()),
            (old(self).spec_phase() is Inserting && (event is Inserted || event is InsertFailed))
                ==> (action matches AddAction::ReleaseAll { keys } && keys@ == old(
                self,
            ).spec_lock_set()),
            old(self).spec_phase() matches AddPhase::Releasing { outcome } ==> (action matches
                AddAction::Finish { outcome: delivered } && delivered == outcome),
    {
        let mut taken = AddPhase::Finished;
        core::mem::swap(&mut self.phase, &mut taken);
        match taken {
            AddPhase::Locking => match event {
                AddEvent::Locked => {
                    self.phase = AddPhase::Checking;
                    AddAction::FetchCandidates { keys: copy_keys(&self.lock_set) }
                },
                AddEvent::LockFailed { error } => {
                    self.phase = AddPhase::Finished;
                    AddAction::Finish { outcome: Err(error) }
                },
                _ => {
                    proof {
                        assert(false);
                    }
                    AddAction::Finish { outcome: Err(GeoError::Config) }
                },
            },
            AddPhase::Checking => match event {
                AddEvent::CandidateDistances { distances_m } => {
                    if conflict_exists(&distances_m, self.distance_m) {
                        self.phase = AddPhase::Releasing { outcome: Err(GeoError::Conflict) };
                        AddAction::ReleaseAll { keys: copy_keys(&self.lock_set) }
                    } else {
                        self.phase = AddPhase::Inserting;
                        AddAction::Insert {
                            command: LocationCommand {
                                latitude_udeg: self.command.latitude_udeg,
                                longitude_udeg: self.command.longitude_udeg,
                                geo_index: self.command.geo_index,
                                uid: self.command.uid.clone(),
                            },
                        }
                    }
                },
                AddEvent::FetchFailed { error } => {
                    self.phase = AddPhase::Releasing { outcome: Err(error) };
                    AddAction::ReleaseAll { keys: copy_keys(&self.lock_set) }
                },
                _ => {
                    proof {
                        assert(false);
                    }
                    AddAction::Finish { outcome: Err(GeoError::Config) }
                },
            },
            AddPhase::Inserting => match event {
                AddEvent::Inserted { id } => {
                    self.phase = AddPhase::Releasing { outcome: Ok(id) };
                    AddAction::ReleaseAll { keys: copy_keys(&self.lock_set) }
                },
                AddEvent::InsertFailed { error } => {
                    self.phase = AddPhase::Releasing { outcome: Err(error) };
                    AddAction::ReleaseAll { keys: copy_keys(&self.lock_set) }
                },
                _ => {
                    proof {
                        assert(false);
                    }
                    AddAction::Finish { outcome: Err(GeoError::Config) }
                },
            },
            AddPhase::Releasing { outcome } => match event {
                AddEvent::Released => {
                    self.phase = AddPhase::Finished;
                    AddAction::Finish { outcome }
                },
                _ => {
                    proof {
                        assert(false);
                    }
                    AddAction::Finish { outcome }
                },
            },
            AddPhase::Finished => {
                proof {
                    assert(false);
                }
                AddAction::Finish { outcome: Err(GeoError::Config) }
            },
        }
    }
}

/// Plan the lock-free read path: the cell set to search around a centre
/// cell, for records within `distance_m` metres.  Reads take no locks —
/// they tolerate eventual consistency with concurrent writers;
/// exactness is only guaranteed for the write-path conflict check.
pub fn nearby_locations(indexer: &H3Indexer, cell: u64, distance_m: u64) -> (r: Result<
    LocationQuery,
    GeoError,
>)
    requires
        indexer.wf(),
        distance_m <= MAX_DISTANCE_M,
        spec_neighbor_k(indexer.spec_resolution(), distance_m) <= MAX_RING_COUNT,
    ensures
        (r is Ok) == h3_cell_valid(cell),
        r is Err ==> r.unwrap_err() == GeoError::Config,
        r is Ok ==> r.unwrap().spec_geo_index() == cell,
        r is Ok ==> strictly_sorted(r.unwrap().spec_get_indices()),
        r is Ok ==> r.unwrap().spec_get_indices().contains(cell),
        r is Ok ==> forall|c: u64|
            r.unwrap().spec_get_indices().contains(c) <==> grid_disk_of(
                cell,
                spec_neighbor_k(indexer.spec_resolution(), distance_m) as u32,
            ).contains(c),
{
    match indexer.neighbors(cell, distance_m) {
        Ok(cells) => Ok(LocationQuery::new(cell, cells)),
        Err(e) => Err(e),
    }
}

/// The number of records a 1-based page skips.
pub fn query_skip(page: u64, size: u64) -> (skip: u64)
    requires
        1 <= page,
        (page - 1) * size <= u64::MAX,
    ensures
        skip == (page - 1) * size,
{
    (page - 1) * size
}

/// The candidate records of a cell set: those stored in one of its
/// cells.
pub open spec fn candidates_in_cells(records: Seq<LocationView>, cells: Seq<u64>) -> Seq<
    LocationView,
> {
    records.filter(|l: LocationView| cells.contains(l.geo_index))
}

/// Round trip: a record stored in one of the queried cells is among the
/// fetched candidates.  Taken with [`nearby_locations`]' guarantee that
/// the centre cell is always among the candidate cells, a record
/// inserted at a coordinate is found again by an immediate nearby query
/// at that same coordinate, whatever the radius.
pub proof fn lemma_round_trip(records: Seq<LocationView>, cells: Seq<u64>, i: int)
    requires
        0 <= i < records.len(),
        cells.contains(records[i].geo_index),
    ensures
        candidates_in_cells(records, cells).contains(records[i]),
{
    records.lemma_filter_contains(|l: LocationView| cells.contains(l.geo_index), i);
}

/// The write decision, the heart of the no-double-insert guarantee:
/// while the lock set is held, a fetched candidate within the radius
/// settles the transaction to `Conflict` — no insert is ever requested —
/// and only when every candidate lies strictly beyond the radius does
/// the insert proceed.
pub proof fn lemma_conflict_decision(phase: AddPhase, threshold_m: u64, distances_m: Vec<u64>)
    requires
        phase is Checking,
    ensures
        spec_conflict(distances_m@, threshold_m) ==> (phase_after(
            phase,
            threshold_m,
            AddEvent::CandidateDistances { distances_m },
        ) matches AddPhase::Releasing { outcome } && outcome == Err::<String, GeoError>(
            GeoError::Conflict,
        )),
        !spec_conflict(distances_m@, threshold_m) ==> phase_after(
            phase,
            threshold_m,
            AddEvent::CandidateDistances { distances_m },
        ) is Inserting,
{
}

/// Lock leak-freedom at the protocol level: over any event sequence —
/// insert success, insert failure, conflict, in any order the driver
/// answers — a transaction that holds its locks reaches `Finished` only
/// after standing in `Releasing` and receiving the driver's `Released`
/// confirmation.  The release of the whole lock set therefore precedes
/// every way of finishing.
pub proof fn lemma_release_before_finish(phase: AddPhase, threshold_m: u64, events: Seq<AddEvent>)
    requires
        phase_holds_locks(phase),
        phase_after_run(phase, threshold_m, events) is Finished,
    ensures
        exists|i: int|
            0 <= i < events.len() && (phase_after_run(
                phase,
                threshold_m,
                #[trigger] events.subrange(0, i),
            ) is Releasing) && events[i] is Released,
    decreases events.len(),
{
    if events.len() == 0 {
        assert(false);
    } else {
        let first = events[0];
        let p1 = phase_after(phase, threshold_m, first);
        let tail = events.subrange(1, events.len() as int);
        assert(phase_after_run(p1, threshold_m, tail) is Finished);
        if phase is Releasing && first is Released {
            assert(events.subrange(0, 0) =~= Seq::<AddEvent>::empty());
            assert(phase_after_run(phase, threshold_m, events.subrange(0, 0)) is Releasing);
        } else {
            assert(phase_holds_locks(p1));
            lemma_release_before_finish(p1, threshold_m, tail);
            let j = choose|j: int|
                0 <= j < tail.len() && (phase_after_run(
                    p1,
                    threshold_m,
                    #[trigger] tail.subrange(0, j),
                ) is Releasing) && tail[j] is Released;
            let pre = events.subrange(0, j + 1);
            assert(pre[0] == first);
            assert(pre.subrange(1, pre.len() as int) =~= tail.subrange(0, j));
            assert(phase_after_run(phase, threshold_m, pre) == phase_after_run(
                p1,
                threshold_m,
                tail.subrange(0, j),
            ));
            assert(events[j + 1] == tail[j]);
            assert(phase_after_run(phase, threshold_m, events.subrange(0, j + 1)) is Releasing
                && events[j + 1] is Released);
        }
    }
}

} // verus!
