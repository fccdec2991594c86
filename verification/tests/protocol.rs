//! The lease protocol, the lock table and the write transaction,
//! exercised end to end with an in-process backend.

use with_baby_geo::error::GeoError;
use with_baby_geo::indexer::H3Indexer;
use with_baby_geo::lease::Lease;
use with_baby_geo::locktable::LockTable;
use with_baby_geo::locktable::lock_set;
use with_baby_geo::models::LocationCommand;
use with_baby_geo::transaction::AddAction;
use with_baby_geo::transaction::AddEvent;
use with_baby_geo::transaction::AddTransaction;

const LEASE: u64 = 60;

fn cell_of(lat: f64, lon: f64, resolution: i32) -> u64 {
    let ll = h3o::LatLng::new(lat, lon).unwrap();
    let res = h3o::Resolution::try_from(resolution as u8).unwrap();
    u64::from(ll.to_cell(res))
}

fn haversine_m(lat1: f64, lon1: f64, lat2: f64, lon2: f64) -> f64 {
    let r = 6_371_000.0_f64;
    let p1 = lat1.to_radians();
    let p2 = lat2.to_radians();
    let dp = (lat2 - lat1).to_radians();
    let dl = (lon2 - lon1).to_radians();
    let a = (dp / 2.0).sin().powi(2) + p1.cos() * p2.cos() * (dl / 2.0).sin().powi(2);
    2.0 * r * a.sqrt().atan2((1.0 - a).sqrt())
}

/// Drives one write transaction against an in-process lock table and an
/// in-memory store of `(id, lat, lon, cell)` rows, the way the network
/// adapters drive it in production.
fn run_add(
    table: &mut LockTable,
    store: &mut Vec<(String, f64, f64, u64)>,
    indexer: &H3Indexer,
    lat: f64,
    lon: f64,
    uid: &str,
    distance_m: u64,
    now: u64,
    next_id: &mut u64,
) -> Result<String, GeoError> {
    let cell = cell_of(lat, lon, indexer.resolution());
    let cmd = LocationCommand {
        latitude_udeg: (lat * 1e6) as i64,
        longitude_udeg: (lon * 1e6) as i64,
        geo_index: cell,
        uid: uid.to_string(),
    };
    let (mut txn, mut action) = AddTransaction::begin(indexer, cmd, distance_m)?;
    loop {
        match action {
            AddAction::AcquireAll { keys } => {
                let event = match table.acquire_all(&keys, now, LEASE, 10) {
                    Ok(()) => AddEvent::Locked,
                    Err(e) => AddEvent::LockFailed { error: e },
                };
                action = txn.step(event);
            }
            AddAction::FetchCandidates { keys } => {
                let mut distances_m: Vec<u64> = Vec::new();
                for (_, rlat, rlon, rcell) in store.iter() {
                    if keys.contains(rcell) {
                        distances_m.push(haversine_m(lat, lon, *rlat, *rlon).round() as u64);
                    }
                }
                action = txn.step(AddEvent::CandidateDistances { distances_m });
            }
            AddAction::Insert { command } => {
                let id = format!("loc-{}", *next_id);
                *next_id += 1;
                store.push((id.clone(), lat, lon, command.geo_index));
                action = txn.step(AddEvent::Inserted { id });
            }
            AddAction::ReleaseAll { keys } => {
                table.release_all(&keys, now, LEASE);
                action = txn.step(AddEvent::Released);
            }
            AddAction::Finish { outcome } => return outcome,
        }
    }
}

#[test]
fn lease_acquire_and_release() {
    let l0 = Lease::empty();
    let (l1, ok) = l0.acquire_step(100, LEASE);
    assert!(ok);
    assert_eq!(l1.owner_ticket, Some(1));
    assert_eq!(l1.sequence, 1);
    assert_eq!(l1.acquired_at, 100);
    let (l2, signalled) = l1.release_step(120, LEASE);
    assert!(signalled);
    assert_eq!(l2.owner_ticket, None);
    assert_eq!(l2.sequence, 2);
}

#[test]
fn lease_mutual_exclusion_while_held() {
    let (held, ok) = Lease::empty().acquire_step(100, LEASE);
    assert!(ok);
    // up to the last instant of the lease, every other attempt fails
    let (unchanged, ok2) = held.acquire_step(159, LEASE);
    assert!(!ok2);
    assert_eq!(unchanged.owner_ticket, held.owner_ticket);
    assert_eq!(unchanged.sequence, held.sequence);
}

#[test]
fn lease_recovery_after_expiry() {
    let (held, _) = Lease::empty().acquire_step(100, LEASE);
    // the holder crashes and never releases
    let (_, before) = held.acquire_step(159, LEASE);
    assert!(!before);
    // once the lease duration has elapsed, the key can be reclaimed
    let (stolen, after) = held.acquire_step(160, LEASE);
    assert!(after);
    assert_eq!(stolen.owner_ticket, Some(2));
    assert_eq!(stolen.acquired_at, 160);
}

#[test]
fn late_release_restores_a_reclaimed_key() {
    // a release that finds a foreign ticket below the sequence (a steal
    // raced in between) must restore the owner untouched and signal no one
    let raced = Lease { initialized: true, sequence: 7, owner_ticket: Some(3), acquired_at: 100 };
    let (after, signalled) = raced.release_step(120, LEASE);
    assert!(!signalled);
    assert_eq!(after.owner_ticket, Some(3));
    assert_eq!(after.acquired_at, 100);
    assert_eq!(after.sequence, 8);
}

#[test]
fn release_of_a_free_key_is_a_noop() {
    let free = Lease::empty();
    let (after, signalled) = free.release_step(50, LEASE);
    assert!(!signalled);
    assert_eq!(after.owner_ticket, None);
    assert_eq!(after.sequence, 1);
}

#[test]
fn table_acquire_all_sorts_into_one_order() {
    let keys = lock_set(&vec![3, 1, 2, 2, 3]);
    assert_eq!(keys, vec![1, 2, 3]);
    let mut t = LockTable::new();
    assert!(t.acquire_all(&keys, 100, LEASE, 0).is_ok());
    assert!(t.is_held(1, 100, LEASE));
    assert!(t.is_held(2, 100, LEASE));
    assert!(t.is_held(3, 100, LEASE));
    t.release_all(&keys, 110, LEASE);
    assert!(!t.is_held(1, 110, LEASE));
    assert!(!t.is_held(2, 110, LEASE));
    assert!(!t.is_held(3, 110, LEASE));
    // leak freedom: a subsequent acquire of the same keys is granted at
    // once, with no wait at all
    assert!(t.acquire_all(&keys, 120, LEASE, 0).is_ok());
}

#[test]
fn table_rollback_on_contention() {
    let mut t = LockTable::new();
    // another party holds key 2 under a long lease
    assert!(t.acquire(2, 100, 600, 0).is_ok());
    let keys = lock_set(&vec![1, 2, 3]);
    // the wait window ends long before that lease runs out
    assert_eq!(t.acquire_all(&keys, 110, 600, 50), Err(GeoError::LockTimeout));
    // keys 1 and 3 were rolled back; key 2 still belongs to its holder
    assert!(!t.is_held(1, 111, 600));
    assert!(t.is_held(2, 111, 600));
    assert!(!t.is_held(3, 111, 600));
    // with a window that reaches the holder's expiry, the set is granted
    assert!(t.acquire_all(&keys, 120, 600, 600).is_ok());
}

#[test]
fn table_lease_recovery() {
    let mut t = LockTable::new();
    assert!(t.acquire(9, 1000, LEASE, 0).is_ok());
    // the holder simulates a crash: acquires and never releases
    assert_eq!(t.acquire(9, 1010, LEASE, 40), Err(GeoError::LockTimeout));
    // the lease ends at 1060; a wait that reaches it succeeds
    assert!(t.acquire(9, 1010, LEASE, 50).is_ok());
}

#[test]
fn overlapping_transactions_serialize() {
    let mut t = LockTable::new();
    let a = lock_set(&vec![12, 10, 11]);
    let b = lock_set(&vec![13, 11, 12]);
    assert!(t.acquire_all(&a, 0, 100, 0).is_ok());
    // the overlapping set fails cleanly instead of deadlocking, holding
    // nothing of its own
    assert_eq!(t.acquire_all(&b, 10, 100, 0), Err(GeoError::LockTimeout));
    assert!(!t.is_held(13, 11, 100));
    t.release_all(&a, 20, 100);
    assert!(t.acquire_all(&b, 30, 100, 0).is_ok());
}

#[test]
fn spatial_exclusion_scenario() {
    // resolution 10: average edge length about 70 metres
    let indexer = H3Indexer::new(10).unwrap();
    let mut table = LockTable::new();
    let mut store: Vec<(String, f64, f64, u64)> = Vec::new();
    let mut next_id = 1u64;

    let a = run_add(&mut table, &mut store, &indexer, 36.657004, 117.0242607, "1", 500, 100, &mut next_id);
    let id_a = a.unwrap();

    // the same spot again within 500 m: the invariant rejects it
    let b = run_add(&mut table, &mut store, &indexer, 36.657004, 117.0242607, "2", 500, 200, &mut next_id);
    assert_eq!(b, Err(GeoError::Conflict));
    assert_eq!(store.len(), 1);

    // a point more than 10 km away: inserted, under a fresh identifier
    let c = run_add(&mut table, &mut store, &indexer, 36.757004, 117.0242607, "2", 500, 300, &mut next_id);
    let id_c = c.unwrap();
    assert_ne!(id_a, id_c);
    assert_eq!(store.len(), 2);

    // every lock went back: the first point's cell is free again
    let cell_a = cell_of(36.657004, 117.0242607, 10);
    assert!(!table.is_held(cell_a, 400, LEASE));
}

#[test]
fn insert_failure_still_releases() {
    let indexer = H3Indexer::new(10).unwrap();
    let mut table = LockTable::new();
    let lat = 48.858370;
    let lon = 2.294481;
    let cell = cell_of(lat, lon, 10);
    let cmd = LocationCommand {
        latitude_udeg: (lat * 1e6) as i64,
        longitude_udeg: (lon * 1e6) as i64,
        geo_index: cell,
        uid: "7".to_string(),
    };
    let (mut txn, action) = AddTransaction::begin(&indexer, cmd, 500).unwrap();
    let keys = match action {
        AddAction::AcquireAll { keys } => keys,
        other => panic!("expected an acquire, got {:?}", other),
    };
    assert!(table.acquire_all(&keys, 10, LEASE, 0).is_ok());
    let action = txn.step(AddEvent::Locked);
    assert!(matches!(action, AddAction::FetchCandidates { .. }));
    let action = txn.step(AddEvent::CandidateDistances { distances_m: Vec::new() });
    assert!(matches!(action, AddAction::Insert { .. }));
    // the store fails: the locks must still be let go on this path
    let action = txn.step(AddEvent::InsertFailed { error: GeoError::Store });
    let release_keys = match action {
        AddAction::ReleaseAll { keys } => keys,
        other => panic!("expected a release, got {:?}", other),
    };
    assert_eq!(release_keys, keys);
    table.release_all(&release_keys, 20, LEASE);
    let action = txn.step(AddEvent::Released);
    match action {
        AddAction::Finish { outcome } => assert_eq!(outcome, Err(GeoError::Store)),
        other => panic!("expected the outcome, got {:?}", other),
    }
    // nothing leaked: the same set is granted again without waiting
    assert!(table.acquire_all(&keys, 30, LEASE, 0).is_ok());
}

#[test]
fn nearby_round_trip_finds_a_fresh_insert() {
    let indexer = H3Indexer::new(10).unwrap();
    let mut table = LockTable::new();
    let mut store: Vec<(String, f64, f64, u64)> = Vec::new();
    let mut next_id = 1u64;
    let (lat, lon) = (40.689247, -74.044502);
    let id = run_add(&mut table, &mut store, &indexer, lat, lon, "5", 500, 100, &mut next_id)
        .unwrap();
    // an immediate nearby query at the same coordinate, radius zero:
    // the candidate cells always include the record's own cell, so the
    // record is found
    let cell = cell_of(lat, lon, 10);
    let plan = with_baby_geo::transaction::nearby_locations(&indexer, cell, 0).unwrap();
    let found: Vec<&(String, f64, f64, u64)> = store
        .iter()
        .filter(|(_, rlat, rlon, rcell)| {
            plan.get_indices().contains(rcell)
                && haversine_m(lat, lon, *rlat, *rlon).round() as u64 <= 0
        })
        .collect();
    assert_eq!(found.len(), 1);
    assert_eq!(found[0].0, id);
}

#[test]
fn fetch_failure_still_releases() {
    let indexer = H3Indexer::new(10).unwrap();
    let mut table = LockTable::new();
    let cell = cell_of(35.689487, 139.691711, 10);
    let cmd = LocationCommand {
        latitude_udeg: 35_689_487,
        longitude_udeg: 139_691_711,
        geo_index: cell,
        uid: "3".to_string(),
    };
    let (mut txn, action) = AddTransaction::begin(&indexer, cmd, 500).unwrap();
    let keys = match action {
        AddAction::AcquireAll { keys } => keys,
        other => panic!("expected an acquire, got {:?}", other),
    };
    assert!(table.acquire_all(&keys, 10, LEASE, 0).is_ok());
    let action = txn.step(AddEvent::Locked);
    assert!(matches!(action, AddAction::FetchCandidates { .. }));
    // the candidate fetch fails: the locks must still be let go
    let action = txn.step(AddEvent::FetchFailed { error: GeoError::BackendUnavailable });
    let release_keys = match action {
        AddAction::ReleaseAll { keys } => keys,
        other => panic!("expected a release, got {:?}", other),
    };
    table.release_all(&release_keys, 20, LEASE);
    let action = txn.step(AddEvent::Released);
    match action {
        AddAction::Finish { outcome } => assert_eq!(outcome, Err(GeoError::BackendUnavailable)),
        other => panic!("expected the outcome, got {:?}", other),
    }
    assert!(table.acquire_all(&keys, 30, LEASE, 0).is_ok());
}

#[test]
fn lock_timeout_aborts_with_nothing_held() {
    let indexer = H3Indexer::new(10).unwrap();
    let mut table = LockTable::new();
    let mut store: Vec<(String, f64, f64, u64)> = Vec::new();
    let mut next_id = 1u64;
    let lat = 51.500729;
    let lon = -0.124625;
    let cell = cell_of(lat, lon, 10);
    // another party holds the centre cell; its lease runs to 200, well
    // past the transaction's wait window
    assert!(table.acquire(cell, 140, LEASE, 0).is_ok());
    let r = run_add(&mut table, &mut store, &indexer, lat, lon, "9", 500, 150, &mut next_id);
    assert_eq!(r, Err(GeoError::LockTimeout));
    assert!(store.is_empty());
    // the holder keeps its key; the aborted transaction held on to nothing
    assert!(table.is_held(cell, 151, LEASE));
    assert!(table.acquire(cell, 200, LEASE, 0).is_ok());
}
