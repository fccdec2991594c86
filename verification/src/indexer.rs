//! The spatial indexer: fixed-resolution hexagonal cells and the
//! conservative ring expansion that turns a radius into a candidate cell
//! set.
//!
//! Cell identifiers are opaque, totally ordered 64-bit values produced by
//! the H3 cell geometry.  The indexer's own work is the arithmetic: it
//! derives from a radius and the resolution's average edge length the
//! number of rings that provably cover the radius, and it canonicalises
//! the resulting disk into a sorted, deduplicated cell list.  Mapping a
//! coordinate to its cell is floating-point work of the geometry library
//! and stays outside the verified core; everything here starts from a
//! cell identifier.

use vstd::prelude::*;

use crate::error::GeoError;
use crate::locktable::lock_set;
use crate::locktable::strictly_sorted;

verus! {

/// Upper bound on radii, in metres: the Earth's circumference.  No two
/// points lie farther apart, and the bound keeps the millimetre
/// arithmetic far from `u64` overflow.
pub const MAX_DISTANCE_M: u64 = 40_075_000;

/// Largest ring count the candidate expansion accepts; a disk of this
/// many rings already holds tens of thousands of cells.
pub const MAX_RING_COUNT: u64 = 100;

/// The resolutions the cell geometry supports.
pub open spec fn valid_resolution(resolution: i32) -> bool {
    0 <= resolution <= 15
}

/// Average hexagon edge length per resolution, in millimetres, rounded
/// down.  Rounding down is the conservative direction: a smaller edge
/// can only enlarge the ring count, never shrink the candidate set.
pub open spec fn spec_edge_mm(resolution: i32) -> u64 {
    if resolution == 0 {
        1_281_256_010
    } else if resolution == 1 {
        483_056_839
    } else if resolution == 2 {
        182_512_956
    } else if resolution == 3 {
        68_979_221
    } else if resolution == 4 {
        26_071_759
    } else if resolution == 5 {
        9_854_090
    } else if resolution == 6 {
        3_724_532
    } else if resolution == 7 {
        1_406_475
    } else if resolution == 8 {
        531_414
    } else if resolution == 9 {
        200_786
    } else if resolution == 10 {
        75_863
    } else if resolution == 11 {
        28_663
    } else if resolution == 12 {
        10_830
    } else if resolution == 13 {
        4_092
    } else if resolution == 14 {
        1_546
    } else {
        584
    }
}

/// The ring count that covers a radius: the least `k` such that a disk
/// of `k` rings of cells with edge length `edge_mm` reaches out at least
/// `distance_mm`; `0` when the radius fits inside one cell.
pub open spec fn spec_ring_count(distance_mm: int, edge_mm: int) -> int {
    if distance_mm <= edge_mm {
        0
    } else {
        (distance_mm - edge_mm + 2 * edge_mm - 1) / (2 * edge_mm)
    }
}

/// The ring count is exactly large enough: a disk of `spec_ring_count`
/// rings spans the radius (no false negatives from too small a disk),
/// and one ring fewer would not.
pub proof fn lemma_ring_count_covers(distance_mm: int, edge_mm: int)
    requires
        1 <= edge_mm,
        0 <= distance_mm,
    ensures
        0 <= spec_ring_count(distance_mm, edge_mm),
        edge_mm + 2 * spec_ring_count(distance_mm, edge_mm) * edge_mm >= distance_mm,
        spec_ring_count(distance_mm, edge_mm) > 0 ==> edge_mm + 2 * (spec_ring_count(
            distance_mm,
            edge_mm,
        ) - 1) * edge_mm < distance_mm,
{
    if distance_mm <= edge_mm {
        assert(spec_ring_count(distance_mm, edge_mm) == 0);
    } else {
        let n = distance_mm - edge_mm;
        let q = 2 * edge_mm;
        let k = (n + q - 1) / q;
        vstd::arithmetic::div_mod::lemma_fundamental_div_mod(n + q - 1, q);
        vstd::arithmetic::div_mod::lemma_mod_bound(n + q - 1, q);
        let r = (n + q - 1) % q;
        assert(n + q - 1 == q * k + r);
        assert(q * k == n + q - 1 - r);
        assert(q * k >= n) by {
            assert(r <= q - 1);
        }
        assert(q * k <= n + q - 1);
        assert(k >= 1) by (nonlinear_arith)
            requires
                q * k >= n,
                n >= 1,
                q >= 2,
        ;
        assert(2 * k * edge_mm == q * k) by (nonlinear_arith)
            requires
                q == 2 * edge_mm,
        ;
        assert(2 * (k - 1) * edge_mm == q * k - q) by (nonlinear_arith)
            requires
                q == 2 * edge_mm,
        ;
        assert(edge_mm + 2 * k * edge_mm >= distance_mm);
        assert(edge_mm + 2 * (k - 1) * edge_mm < distance_mm);
    }
}

/// Executable counterpart of [`spec_ring_count`].
pub fn ring_count(distance_mm: u64, edge_mm: u64) -> (k: u64)
    requires
        1 <= edge_mm,
        distance_mm + edge_mm <= u64::MAX,
    ensures
        k == spec_ring_count(distance_mm as int, edge_mm as int),
{
    if distance_mm <= edge_mm {
        0
    } else {
        (distance_mm - edge_mm + 2 * edge_mm - 1) / (2 * edge_mm)
    }
}

/// Whether a 64-bit value is a valid cell identifier of the cell
/// geometry; names the success of `h3o::CellIndex::try_from`.
pub uninterp spec fn h3_cell_valid(cell: u64) -> bool;

/// The cell identifiers within `k` grid rings of `cell`, in the order
/// the cell geometry yields them; names the result of
/// `h3o::CellIndex::grid_disk`.
pub uninterp spec fn grid_disk_of(cell: u64, k: u32) -> Seq<u64>;

/// Relies on `h3o::CellIndex::try_from`, which accepts exactly the valid
/// cell identifiers, and on `h3o::CellIndex::grid_disk`, which yields the
/// cells within grid distance `k` of a valid cell — among them, at
/// distance zero, the cell itself.
#[verifier::external_body]
fn h3_grid_disk(cell: u64, k: u32) -> (r: Option<Vec<u64>>)
    requires
        k <= MAX_RING_COUNT,
    ensures
        (r is Some) == h3_cell_valid(cell),
        r is Some ==> r.unwrap()@ == grid_disk_of(cell, k),
        r is Some ==> grid_disk_of(cell, k).contains(cell),
{
    match h3o::CellIndex::try_from(cell) {
        Ok(c) => Some(c.grid_disk::<Vec<h3o::CellIndex>>(k).into_iter().map(u64::from).collect()),
        Err(_) => None,
    }
}

/// The ring count `neighbors` uses for a radius at a resolution: the
/// radius in millimetres over the resolution's edge length.
pub open spec fn spec_neighbor_k(resolution: i32, distance_m: u64) -> int {
    spec_ring_count(distance_m * 1000, spec_edge_mm(resolution) as int)
}

/// Maps coordinates to cells at one fixed resolution, chosen at startup
/// and immutable afterwards.
#[derive(Clone, Copy, Debug)]
pub struct H3Indexer {
    resolution: i32,
}

impl H3Indexer {
    /// The resolution the indexer was built with.
    pub closed spec fn spec_resolution(self) -> i32 {
        self.resolution
    }

    /// The indexer only ever exists at a supported resolution.
    pub open spec fn wf(self) -> bool {
        valid_resolution(self.spec_resolution())
    }

    /// Build an indexer at `resolution`, rejecting resolutions outside
    /// the supported range.
    pub fn new(resolution: i32) -> (r: Result<H3Indexer, GeoError>)
        ensures
            (r is Ok) == valid_resolution(resolution),
            r is Ok ==> r.unwrap().spec_resolution() == resolution && r.unwrap().wf(),
            r is Err ==> r.unwrap_err() == GeoError::Config,
    {
        if resolution < 0 || resolution > 15 {
            Err(GeoError::Config)
        } else {
            Ok(H3Indexer { resolution })
        }
    }

    /// The resolution, for callers crossing to the cell geometry.
    pub fn resolution(&self) -> (r: i32)
        ensures
            r == self.spec_resolution(),
    {
        self.resolution
    }

    /// The resolution's average hexagon edge length in millimetres,
    /// rounded down.
    pub fn edge_length_mm(&self) -> (e: u64)
        requires
            self.wf(),
        ensures
            e == spec_edge_mm(self.spec_resolution()),
            1 <= e,
    {
        if self.resolution == 0 {
            1_281_256_010
        } else if self.resolution == 1 {
            483_056_839
        } else if self.resolution == 2 {
            182_512_956
        } else if self.resolution == 3 {
            68_979_221
        } else if self.resolution == 4 {
            26_071_759
        } else if self.resolution == 5 {
            9_854_090
        } else if self.resolution == 6 {
            3_724_532
        } else if self.resolution == 7 {
            1_406_475
        } else if self.resolution == 8 {
            531_414
        } else if self.resolution == 9 {
            200_786
        } else if self.resolution == 10 {
            75_863
        } else if self.resolution == 11 {
            28_663
        } else if self.resolution == 12 {
            10_830
        } else if self.resolution == 13 {
            4_092
        } else if self.resolution == 14 {
            1_546
        } else {
            584
        }
    }

    /// Every cell whose points could lie within `distance_m` of a point
    /// in `cell`: the disk of `spec_neighbor_k` rings around `cell`,
    /// sorted ascending and deduplicated, `cell` itself among them.  The
    /// expansion is deliberately conservative — it over-approximates the
    /// candidates, and exactness is left to the distance check.  Fails
    /// exactly on a value that is no cell identifier.
    pub fn neighbors(&self, cell: u64, distance_m: u64) -> (r: Result<Vec<u64>, GeoError>)
        requires
            self.wf(),
            distance_m <= MAX_DISTANCE_M,
            spec_neighbor_k(self.spec_resolution(), distance_m) <= MAX_RING_COUNT,
        ensures
            (r is Ok) == h3_cell_valid(cell),
            r is Err ==> r.unwrap_err() == GeoError::Config,
            r is Ok ==> strictly_sorted(r.unwrap()@),
            r is Ok ==> forall|c: u64|
                r.unwrap()@.contains(c) <==> grid_disk_of(
                    cell,
                    spec_neighbor_k(self.spec_resolution(), distance_m) as u32,
                ).contains(c),
            r is Ok ==> r.unwrap()@.contains(cell),
    {
        let edge = self.edge_length_mm();
        proof {
            lemma_ring_count_covers(distance_m as int * 1000, edge as int);
        }
        let k64 = ring_count(distance_m * 1000, edge);
        let k = k64 as u32;
        match h3_grid_disk(cell, k) {
            Some(cells) => Ok(lock_set(&cells)),
            None => Err(GeoError::Config),
        }
    }
}

} // verus!
