use vstd::prelude::*;

use crate::load::{INSTANCES_PER_REGION, MAX_REGION_SIDE};
use crate::terrain::cache::TerrainAssignment;
use crate::terrain::projection::{ProjectionError, TerrainProjection};

use super::fixture::CompositionFixture;

verus! {

/// One comparison of two objects that sit on the shared edge of
/// neighboring regions.
#[derive(Clone, Copy, Debug, PartialEq, Eq)]
pub struct BoundaryMismatch {
    pub first_region_id: u32,
    pub second_region_id: u32,
    pub first_local_index: u32,
    pub second_local_index: u32,
    pub position_matches: bool,
    pub first_ground: i32,
    pub second_ground: i32,
}

/// How the objects on the shared edges of neighboring regions agree on
/// their positions and ground.
#[derive(Clone, Copy, Debug, PartialEq, Eq)]
pub struct BoundaryProbe {
    pub logical_neighbor_edges: u32,
    pub pair_comparisons: u32,
    pub position_mismatch_count: u32,
    pub ground_mismatch_count: u32,
    pub first_mismatch: Option<BoundaryMismatch>,
}

/// Objects in a region's row of cells.
pub const EDGE_OBJECTS: u32 = 32;

/// A comparison that found a difference.
pub open spec fn diverged(m: BoundaryMismatch) -> bool {
    !m.position_matches || m.first_ground != m.second_ground
}

/// The last index before `n` whose region is `id`.
pub open spec fn last_index(ids: Seq<u32>, id: int, n: int) -> Option<int>
    decreases n,
{
    if n <= 0 {
        None
    } else if ids[n - 1] == id {
        Some(n - 1)
    } else {
        last_index(ids, id, n - 1)
    }
}

/// The `along`-th comparison on the edge between the regions at `first`
/// and `second`: the last column of the first against the first column of
/// the second on an east edge, the last row against the first row on a
/// south edge.
pub open spec fn edge_pair(
    ids: Seq<u32>,
    positions: Seq<Vec<[u32; 2]>>,
    ground: Seq<i32>,
    first: int,
    second: int,
    east: bool,
    along: int,
) -> BoundaryMismatch {
    let first_local = if east {
        along * 32 + 31
    } else {
        31 * 32 + along
    };
    let second_local = if east {
        along * 32
    } else {
        along
    };
    let p = positions[first]@[first_local];
    let q = positions[second]@[second_local];
    BoundaryMismatch {
        first_region_id: ids[first],
        second_region_id: ids[second],
        first_local_index: first_local as u32,
        second_local_index: second_local as u32,
        position_matches: p[0] == q[0] && p[1] == q[1],
        first_ground: ground[first * INSTANCES_PER_REGION + first_local],
        second_ground: ground[second * INSTANCES_PER_REGION + second_local],
    }
}

/// The region the `first`-th region shares its east (or south) edge with:
/// the last one in the mapping that holds the next region id along that
/// axis, none past the grid's east edge.
pub open spec fn neighbor(ids: Seq<u32>, first: int, east: bool) -> Option<int> {
    let id = ids[first] as int;
    if east {
        if id % MAX_REGION_SIDE as int + 1 >= MAX_REGION_SIDE {
            None
        } else {
            last_index(ids, id + 1, ids.len() as int)
        }
    } else {
        last_index(ids, id + MAX_REGION_SIDE, ids.len() as int)
    }
}

/// The comparisons on the `first`-th region's east (or south) edge.
pub open spec fn edge_pairs(
    ids: Seq<u32>,
    positions: Seq<Vec<[u32; 2]>>,
    ground: Seq<i32>,
    first: int,
    east: bool,
) -> Seq<BoundaryMismatch> {
    match neighbor(ids, first, east) {
        Some(second) => Seq::new(32, |along: int| edge_pair(ids, positions, ground, first, second, east, along)),
        None => Seq::empty(),
    }
}

/// The comparisons of the first `n` regions, region by region, east edge
/// before south edge.
pub open spec fn all_pairs(ids: Seq<u32>, positions: Seq<Vec<[u32; 2]>>, ground: Seq<i32>, n: nat) -> Seq<
    BoundaryMismatch,
>
    decreases n,
{
    if n == 0 {
        Seq::empty()
    } else {
        all_pairs(ids, positions, ground, (n - 1) as nat) + edge_pairs(ids, positions, ground, n - 1, true)
            + edge_pairs(ids, positions, ground, n - 1, false)
    }
}

/// Shared edges of the first `n` regions.
pub open spec fn edge_count(ids: Seq<u32>, n: nat) -> nat
    decreases n,
{
    if n == 0 {
        0
    } else {
        edge_count(ids, (n - 1) as nat) + (if neighbor(ids, n - 1, true) is Some {
            1nat
        } else {
            0nat
        }) + (if neighbor(ids, n - 1, false) is Some {
            1nat
        } else {
            0nat
        })
    }
}

/// Comparisons whose positions differ.
pub open spec fn position_mismatches(pairs: Seq<BoundaryMismatch>) -> nat
    decreases pairs.len(),
{
    if pairs.len() == 0 {
        0
    } else {
        position_mismatches(pairs.drop_last()) + if pairs.last().position_matches {
            0nat
        } else {
            1nat
        }
    }
}

/// Comparisons whose ground differs.
pub open spec fn ground_mismatches(pairs: Seq<BoundaryMismatch>) -> nat
    decreases pairs.len(),
{
    if pairs.len() == 0 {
        0
    } else {
        ground_mismatches(pairs.drop_last()) + if pairs.last().first_ground != pairs.last().second_ground {
            1nat
        } else {
            0nat
        }
    }
}

/// The first comparison that found a difference.
pub open spec fn first_diverged(pairs: Seq<BoundaryMismatch>) -> Option<BoundaryMismatch>
    decreases pairs.len(),
{
    if pairs.len() == 0 {
        None
    } else {
        match first_diverged(pairs.drop_last()) {
            Some(m) => Some(m),
            None => if diverged(pairs.last()) {
                Some(pairs.last())
            } else {
                None
            },
        }
    }
}

/// `probe` holds the counts and first difference of `pairs`.
pub open spec fn summarizes(probe: BoundaryProbe, pairs: Seq<BoundaryMismatch>) -> bool {
    &&& probe.pair_comparisons == pairs.len()
    &&& probe.position_mismatch_count == position_mismatches(pairs)
    &&& probe.ground_mismatch_count == ground_mismatches(pairs)
    &&& probe.first_mismatch == first_diverged(pairs)
}

/// The render-space region ids of the mapping, when each projects.
pub open spec fn projected_ids(assignments: Seq<TerrainAssignment>, projection: TerrainProjection) -> Seq<u32> {
    Seq::new(
        assignments.len(),
        |i: int| projection.region_id_result(i, assignments[i].region_id)->Ok_0,
    )
}

/// Some entry of the mapping does not project.
pub open spec fn projection_fails(assignments: Seq<TerrainAssignment>, projection: TerrainProjection) -> bool {
    exists|i: int|
        0 <= i < assignments.len() && (#[trigger] projection.region_id_result(i, assignments[i].region_id)) is Err
}

/// What the boundary probe gives: nothing to compare at cell centers;
/// refused when an entry does not project; otherwise the counts over every
/// region's east and south edges and the first difference.
pub open spec fn boundary_result(
    assignments: Seq<TerrainAssignment>,
    positions: Seq<Vec<[u32; 2]>>,
    ground: Seq<i32>,
    fixture: CompositionFixture,
    projection: TerrainProjection,
    r: Result<BoundaryProbe, ProjectionError>,
) -> bool {
    if fixture != CompositionFixture::CellCenter && projection_fails(assignments, projection) {
        r == Err::<BoundaryProbe, ProjectionError>(ProjectionError::IndexOutsideWindow)
    } else {
        r matches Ok(probe) && boundary_summary(assignments, positions, ground, fixture, projection, probe)
    }
}

/// `probe` is what the boundary probe reports when it is not refused:
/// nothing at cell centers; otherwise the counts over every region's east
/// and south edges and the first difference.
pub open spec fn boundary_summary(
    assignments: Seq<TerrainAssignment>,
    positions: Seq<Vec<[u32; 2]>>,
    ground: Seq<i32>,
    fixture: CompositionFixture,
    projection: TerrainProjection,
    probe: BoundaryProbe,
) -> bool {
    if fixture == CompositionFixture::CellCenter {
        probe == BoundaryProbe {
            logical_neighbor_edges: 0,
            pair_comparisons: 0,
            position_mismatch_count: 0,
            ground_mismatch_count: 0,
            first_mismatch: None,
        }
    } else {
        let ids = projected_ids(assignments, projection);
        probe.logical_neighbor_edges == edge_count(ids, ids.len()) && summarizes(
            probe,
            all_pairs(ids, positions, ground, ids.len()),
        )
    }
}

/// The last index before `ids`' end whose region is `id`.
fn find_last(ids: &Vec<u32>, id: u32) -> (r: Option<usize>)
    ensures
        r matches Some(i) ==> i < ids@.len() && last_index(ids@, id as int, ids@.len() as int) == Some(i as int),
        r is None ==> last_index(ids@, id as int, ids@.len() as int) is None,
{
    let mut n = ids.len();
    while n > 0
        invariant
            n <= ids@.len(),
            last_index(ids@, id as int, ids@.len() as int) == last_index(ids@, id as int, n as int),
        decreases n,
    {
        if ids[n - 1] == id {
            return Some(n - 1);
        }
        n -= 1;
    }
    None
}

proof fn lemma_counts_bounded(pairs: Seq<BoundaryMismatch>)
    ensures
        position_mismatches(pairs) <= pairs.len(),
        ground_mismatches(pairs) <= pairs.len(),
    decreases pairs.len(),
{
    if pairs.len() > 0 {
        lemma_counts_bounded(pairs.drop_last());
    }
}

/// Adds the comparisons of the edge between the `first`-th and
/// `second`-th regions to `probe`.
fn compare_edge(
    probe: &mut BoundaryProbe,
    ids: &Vec<u32>,
    positions: &Vec<Vec<[u32; 2]>>,
    ground: &Vec<i32>,
    first: usize,
    second: usize,
    east: bool,
    Ghost(before): Ghost<Seq<BoundaryMismatch>>,
)
    requires
        first < ids@.len(),
        second < ids@.len(),
        positions@.len() == ids@.len(),
        forall|i: int| 0 <= i < positions@.len() ==> (#[trigger] positions@[i])@.len() == INSTANCES_PER_REGION,
        ground@.len() == ids@.len() * INSTANCES_PER_REGION,
        ids@.len() * INSTANCES_PER_REGION <= u32::MAX,
        summarizes(*old(probe), before),
        before.len() + 32 <= u32::MAX,
    ensures
        summarizes(
            *final(probe),
            before + Seq::new(32, |along: int| edge_pair(ids@, positions@, ground@, first as int, second as int, east, along)),
        ),
        final(probe).logical_neighbor_edges == old(probe).logical_neighbor_edges,
{
    let ghost edge = Seq::new(
        32,
        |along: int| edge_pair(ids@, positions@, ground@, first as int, second as int, east, along),
    );
    let mut along: u32 = 0;
    while along < EDGE_OBJECTS
        invariant
            first < ids@.len(),
            second < ids@.len(),
            positions@.len() == ids@.len(),
            forall|i: int| 0 <= i < positions@.len() ==> (#[trigger] positions@[i])@.len() == INSTANCES_PER_REGION,
            ground@.len() == ids@.len() * INSTANCES_PER_REGION,
            ids@.len() * INSTANCES_PER_REGION <= u32::MAX,
            before.len() + 32 <= u32::MAX,
            along <= 32,
            edge == Seq::new(
                32,
                |a: int| edge_pair(ids@, positions@, ground@, first as int, second as int, east, a),
            ),
            summarizes(*probe, before + edge.take(along as int)),
            probe.logical_neighbor_edges == old(probe).logical_neighbor_edges,
        decreases 32 - along,
    {
        let first_local: u32 = if east {
            along * 32 + 31
        } else {
            31 * 32 + along
        };
        let second_local: u32 = if east {
            along * 32
        } else {
            along
        };
        let p = positions[first][first_local as usize];
        let q = positions[second][second_local as usize];
        let position_matches = p[0] == q[0] && p[1] == q[1];
        proof {
            assert(first * INSTANCES_PER_REGION + first_local < ids@.len() * INSTANCES_PER_REGION) by (nonlinear_arith)
                requires
                    first < ids@.len(),
                    first_local < INSTANCES_PER_REGION,
            ;
            assert(second * INSTANCES_PER_REGION + second_local < ids@.len() * INSTANCES_PER_REGION) by (nonlinear_arith)
                requires
                    second < ids@.len(),
                    second_local < INSTANCES_PER_REGION,
            ;
        }
        let first_ground = ground[first * 1024 + first_local as usize];
        let second_ground = ground[second * 1024 + second_local as usize];
        let entry = BoundaryMismatch {
            first_region_id: ids[first],
            second_region_id: ids[second],
            first_local_index: first_local,
            second_local_index: second_local,
            position_matches,
            first_ground,
            second_ground,
        };
        let ghost prefix = before + edge.take(along as int);
        let ghost next = before + edge.take(along + 1);
        proof {
            assert(entry == edge[along as int]);
            assert(next.drop_last() =~= prefix);
            assert(next.last() == entry);
            lemma_counts_bounded(prefix);
        }
        probe.pair_comparisons = probe.pair_comparisons + 1;
        if !position_matches {
            probe.position_mismatch_count = probe.position_mismatch_count + 1;
        }
        if first_ground != second_ground {
            probe.ground_mismatch_count = probe.ground_mismatch_count + 1;
        }
        if probe.first_mismatch.is_none() && (!position_matches || first_ground != second_ground) {
            probe.first_mismatch = Some(entry);
        }
        along += 1;
    }
    proof {
        assert(edge.take(32) =~= edge);
    }
}

proof fn lemma_pairs_len(ids: Seq<u32>, positions: Seq<Vec<[u32; 2]>>, ground: Seq<i32>, n: nat)
    ensures
        all_pairs(ids, positions, ground, n).len() <= 64 * n,
        edge_count(ids, n) <= 2 * n,
    decreases n,
{
    if n > 0 {
        lemma_pairs_len(ids, positions, ground, (n - 1) as nat);
    }
}

/// The region ids of the mapping in render space, or the first refusal.
fn project_ids(assignments: &Vec<TerrainAssignment>, projection: TerrainProjection) -> (r: Result<
    Vec<u32>,
    ProjectionError,
>)
    ensures
        projection_fails(assignments@, projection) ==> r == Err::<Vec<u32>, ProjectionError>(
            ProjectionError::IndexOutsideWindow,
        ),
        !projection_fails(assignments@, projection) ==> (r matches Ok(ids) && ids@ == projected_ids(
            assignments@,
            projection,
        )),
{
    let mut ids: Vec<u32> = Vec::new();
    let mut i: usize = 0;
    while i < assignments.len()
        invariant
            i <= assignments@.len(),
            ids@ == projected_ids(assignments@, projection).take(i as int),
            forall|j: int| 0 <= j < i ==> (#[trigger] projection.region_id_result(j, assignments@[j].region_id)) is Ok,
        decreases assignments@.len() - i,
    {
        match projection.region_id(i, assignments[i].region_id) {
            Ok(id) => {
                ids.push(id);
                proof {
                    assert(ids@ =~= projected_ids(assignments@, projection).take(i + 1));
                }
            },
            Err(e) => {
                proof {
                    assert(projection_fails(assignments@, projection));
                }
                return Err(e);
            },
        }
        i += 1;
    }
    proof {
        assert(ids@ =~= projected_ids(assignments@, projection));
    }
    Ok(ids)
}

/// Compares the objects on every shared edge of neighboring regions, as
/// `boundary_result` says: for each region in mapping order, its east edge
/// (none past the grid's east edge) and then its south edge, each with the
/// last region of the mapping that lies there; each edge compares the 32
/// objects facing each other across it, by position and by ground.
pub fn boundary_probe(
    assignments: &Vec<TerrainAssignment>,
    positions: &Vec<Vec<[u32; 2]>>,
    ground: &Vec<i32>,
    fixture: CompositionFixture,
    projection: TerrainProjection,
) -> (r: Result<BoundaryProbe, ProjectionError>)
    requires
        positions@.len() == assignments@.len(),
        forall|i: int| 0 <= i < positions@.len() ==> (#[trigger] positions@[i])@.len() == INSTANCES_PER_REGION,
        ground@.len() == assignments@.len() * INSTANCES_PER_REGION,
        assignments@.len() * INSTANCES_PER_REGION <= u32::MAX,
        forall|i: int|
            0 <= i < assignments@.len() ==> ((#[trigger] projection.region_id_result(i, assignments@[i].region_id))
                matches Ok(id) ==> id + MAX_REGION_SIDE <= u32::MAX),
    ensures
        boundary_result(assignments@, positions@, ground@, fixture, projection, r),
{
    let mut probe = BoundaryProbe {
        logical_neighbor_edges: 0,
        pair_comparisons: 0,
        position_mismatch_count: 0,
        ground_mismatch_count: 0,
        first_mismatch: None,
    };
    if fixture == CompositionFixture::CellCenter {
        return Ok(probe);
    }
    let ids = match project_ids(assignments, projection) {
        Ok(ids) => ids,
        Err(e) => return Err(e),
    };
    let n = ids.len();
    proof {
        assert forall|i: int| 0 <= i < n implies (#[trigger] ids@[i]) + MAX_REGION_SIDE <= u32::MAX by {
            if projection.region_id_result(i, assignments@[i].region_id) is Err {
                assert(projection_fails(assignments@, projection));
            }
        }
    }
    let mut first: usize = 0;
    while first < n
        invariant
            n == ids@.len(),
            ids@ == projected_ids(assignments@, projection),
            positions@.len() == n,
            forall|i: int| 0 <= i < positions@.len() ==> (#[trigger] positions@[i])@.len() == INSTANCES_PER_REGION,
            ground@.len() == n * INSTANCES_PER_REGION,
            n * INSTANCES_PER_REGION <= u32::MAX,
            forall|i: int| 0 <= i < n ==> (#[trigger] ids@[i]) + MAX_REGION_SIDE <= u32::MAX,
            first <= n,
            probe.logical_neighbor_edges == edge_count(ids@, first as nat),
            summarizes(probe, all_pairs(ids@, positions@, ground@, first as nat)),
        decreases n - first,
    {
        let ghost start = all_pairs(ids@, positions@, ground@, first as nat);
        proof {
            lemma_pairs_len(ids@, positions@, ground@, first as nat);
            assert(64 * first + 64 <= u32::MAX) by (nonlinear_arith)
                requires
                    first < n,
                    n * 1024 <= u32::MAX,
            ;
        }
        let id = ids[first];
        let east = if id % MAX_REGION_SIDE + 1 >= MAX_REGION_SIDE {
            None
        } else {
            find_last(&ids, id + 1)
        };
        let ghost after_east = start + edge_pairs(ids@, positions@, ground@, first as int, true);
        match east {
            Some(second) => {
                probe.logical_neighbor_edges = probe.logical_neighbor_edges + 1;
                compare_edge(&mut probe, &ids, positions, ground, first, second, true, Ghost(start));
            },
            None => {
                proof {
                    assert(after_east =~= start);
                }
            },
        }
        let south = find_last(&ids, id + MAX_REGION_SIDE);
        match south {
            Some(second) => {
                probe.logical_neighbor_edges = probe.logical_neighbor_edges + 1;
                compare_edge(&mut probe, &ids, positions, ground, first, second, false, Ghost(after_east));
            },
            None => {
                proof {
                    assert(after_east + edge_pairs(ids@, positions@, ground@, first as int, false) =~= after_east);
                }
            },
        }
        first += 1;
    }
    Ok(probe)
}

} // verus!
