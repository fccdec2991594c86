//! The spatial indexer, the read-path plan and the data model.

use with_baby_geo::error::GeoError;
use with_baby_geo::indexer::H3Indexer;
use with_baby_geo::indexer::ring_count;
use with_baby_geo::models::UID;
use with_baby_geo::models::MyLock;
use with_baby_geo::models::coordinate_in_range;
use with_baby_geo::transaction::conflict_exists;
use with_baby_geo::transaction::nearby_locations;
use with_baby_geo::transaction::query_skip;

fn cell_of(lat: f64, lon: f64, resolution: i32) -> u64 {
    let ll = h3o::LatLng::new(lat, lon).unwrap();
    let res = h3o::Resolution::try_from(resolution as u8).unwrap();
    u64::from(ll.to_cell(res))
}

#[test]
fn test_actix_header() {
    let name = UID::name();
    println!("{}", name);
    assert_eq!(name, "UID");
}

#[test]
fn uid_round_trips_through_string() {
    let u = UID::from(String::from("caller-17"));
    assert_eq!(u.uid, "caller-17");
    let s = String::from(u);
    assert_eq!(s, "caller-17");
}

#[test]
fn indexer_accepts_only_supported_resolutions() {
    assert!(H3Indexer::new(0).is_ok());
    assert!(H3Indexer::new(8).is_ok());
    assert!(H3Indexer::new(15).is_ok());
    assert_eq!(H3Indexer::new(16).unwrap_err(), GeoError::Config);
    assert_eq!(H3Indexer::new(-1).unwrap_err(), GeoError::Config);
    assert_eq!(H3Indexer::new(10).unwrap().resolution(), 10);
}

#[test]
fn ring_count_covers_the_radius() {
    // a radius inside one cell needs no ring at all
    assert_eq!(ring_count(500_000, 531_414), 0);
    assert_eq!(ring_count(531_414, 531_414), 0);
    // one millimetre past the edge needs the first ring
    assert_eq!(ring_count(531_415, 531_414), 1);
    // 20 km at resolution 8: ceil((20000000 - 531414) / 1062828) rings
    assert_eq!(ring_count(20_000_000, 531_414), 19);
    // the disk of k rings spans at least the radius
    let k = ring_count(20_000_000, 531_414);
    assert!(531_414 + 2 * k * 531_414 >= 20_000_000);
    assert!(531_414 + 2 * (k - 1) * 531_414 < 20_000_000);
}

#[test]
fn neighbors_is_a_sorted_disk_around_the_cell() {
    let indexer = H3Indexer::new(8).unwrap();
    let cell = cell_of(36.657004, 117.0242607, 8);
    // 500 m fits inside one resolution-8 cell: the disk is the cell alone
    let small = indexer.neighbors(cell, 500).unwrap();
    assert_eq!(small, vec![cell]);
    // 20 km spans many rings: a real disk, sorted, deduplicated,
    // the centre cell among them
    let disk = indexer.neighbors(cell, 20_000).unwrap();
    assert!(disk.len() > 1);
    assert!(disk.contains(&cell));
    for w in disk.windows(2) {
        assert!(w[0] < w[1]);
    }
}

#[test]
fn neighbors_rejects_an_invalid_cell() {
    let indexer = H3Indexer::new(8).unwrap();
    assert_eq!(indexer.neighbors(0, 500).unwrap_err(), GeoError::Config);
}

#[test]
fn neighbor_coverage_has_no_false_negatives() {
    // every probe point within the radius of the centre must fall in a
    // cell of the candidate set, across resolutions
    let center = (36.657004, 117.0242607);
    let radius_m = 2_000u64;
    let probes = [
        (36.657004, 117.0242607),
        (36.6650, 117.0243),
        (36.6500, 117.0242),
        (36.657004, 117.0352),
        (36.657004, 117.0133),
        (36.6630, 117.0310),
    ];
    for resolution in [7, 8, 9, 10] {
        let indexer = H3Indexer::new(resolution).unwrap();
        let center_cell = cell_of(center.0, center.1, resolution);
        let disk = indexer.neighbors(center_cell, radius_m).unwrap();
        for (lat, lon) in probes {
            let probe_cell = cell_of(lat, lon, resolution);
            assert!(
                disk.contains(&probe_cell),
                "resolution {} misses cell of ({}, {})",
                resolution,
                lat,
                lon
            );
        }
    }
}

#[test]
fn nearby_plan_searches_around_the_centre() {
    let indexer = H3Indexer::new(8).unwrap();
    let cell = cell_of(48.858370, 2.294481, 8);
    let q = nearby_locations(&indexer, cell, 20_000).unwrap();
    assert_eq!(q.geo_index(), cell);
    assert!(q.get_indices().contains(&cell));
    assert!(q.get_indices().len() > 1);
    assert_eq!(nearby_locations(&indexer, 0, 500).unwrap_err(), GeoError::Config);
}

#[test]
fn query_skip_is_one_based() {
    assert_eq!(query_skip(1, 10), 0);
    assert_eq!(query_skip(3, 10), 20);
    assert_eq!(query_skip(7, 1), 6);
}

#[test]
fn conflict_decision_is_exact() {
    assert!(!conflict_exists(&Vec::new(), 500));
    assert!(!conflict_exists(&vec![501, 1000, 20_000], 500));
    assert!(conflict_exists(&vec![501, 500], 500));
    assert!(conflict_exists(&vec![0], 500));
}

#[test]
fn coordinate_bounds_are_inclusive() {
    assert!(coordinate_in_range(90_000_000, 180_000_000));
    assert!(coordinate_in_range(-90_000_000, -180_000_000));
    assert!(coordinate_in_range(36_657_004, 117_024_260));
    assert!(!coordinate_in_range(90_000_001, 0));
    assert!(!coordinate_in_range(0, -180_000_001));
}

#[test]
fn error_taxonomy_marks_what_may_be_retried() {
    assert!(GeoError::LockTimeout.retryable());
    assert!(GeoError::BackendUnavailable.retryable());
    assert!(GeoError::Store.retryable());
    assert!(!GeoError::Conflict.retryable());
    assert!(!GeoError::Config.retryable());
}

#[test]
fn lock_handle_carries_the_backend_fields() {
    let l = MyLock { resource: vec![1, 2], val: vec![3], validity_time: 42 };
    assert_eq!(l.resource, vec![1, 2]);
    assert_eq!(l.val, vec![3]);
    assert_eq!(l.validity_time, 42);
}
