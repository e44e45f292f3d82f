use vstd::prelude::*;

use crate::load::{INSTANCES_PER_REGION, MAX_REGION_SIDE};
use crate::terrain::surface::{height, TileHeights};

verus! {

/// How the composed objects are placed within their cells: at the cell
/// centers, or at arbitrary positions on a 1/256 cell grid.
#[derive(Clone, Copy, Debug, PartialEq, Eq, Structural)]
pub enum CompositionFixture {
    CellCenter,
    ArbitraryQ8,
}

impl Default for CompositionFixture {
    fn default() -> (r: CompositionFixture)
        ensures
            r == CompositionFixture::CellCenter,
    {
        CompositionFixture::CellCenter
    }
}

/// Which triangle of a cell a position falls in.
#[derive(Clone, Copy, Debug, PartialEq, Eq, Structural)]
pub enum TriangleClass {
    First,
    Diagonal,
    Second,
}

impl CompositionFixture {
    /// The grounding mode the shaders receive: 1 at cell centers, 2 at
    /// arbitrary positions.
    pub fn grounding_mode(self) -> (r: u32)
        ensures
            r == match self {
                CompositionFixture::CellCenter => 1u32,
                CompositionFixture::ArbitraryQ8 => 2u32,
            },
    {
        match self {
            CompositionFixture::CellCenter => 1,
            CompositionFixture::ArbitraryQ8 => 2,
        }
    }

    /// Denominator of the exact ground heights: 512 at cell centers, 65536
    /// at arbitrary positions.
    pub fn ground_denominator(self) -> (r: u32)
        ensures
            r == match self {
                CompositionFixture::CellCenter => 512u32,
                CompositionFixture::ArbitraryQ8 => 65_536u32,
            },
    {
        match self {
            CompositionFixture::CellCenter => 512,
            CompositionFixture::ArbitraryQ8 => 65_536,
        }
    }

    /// Denominator of the object positions: 64 at cell centers, 512 at
    /// arbitrary positions.
    pub fn position_denominator(self) -> (r: u32)
        ensures
            r == match self {
                CompositionFixture::CellCenter => 64u32,
                CompositionFixture::ArbitraryQ8 => 512u32,
            },
    {
        match self {
            CompositionFixture::CellCenter => 64,
            CompositionFixture::ArbitraryQ8 => 512,
        }
    }
}

/// `(region mod modulus) * 32 + local`, reduced mod `modulus`: the global
/// cell index along an axis, modulo `modulus`.
pub open spec fn cell_mod(region: int, local: int, modulus: int) -> int {
    ((region % modulus) * 32 + local) % modulus
}

/// `(coordinate * multiplier + offset) mod 255 + 1`, the product and sum
/// wrapping in 32 bits.
pub open spec fn interior_mod(coordinate: u32, multiplier: u32, offset: u32) -> int {
    ((((coordinate * multiplier) % 0x1_0000_0000 + offset) % 0x1_0000_0000) % 255) + 1
}

/// The fraction pair of the `local_index`-th object of a region: cells on
/// the region's border sit on the border (0 or 256) along that axis and at
/// a pseudo-random interior fraction along the other; interior cells take
/// one of three fixed positions, by their global cell parity modulo 3.
pub open spec fn fractions(region_id: u32, local_index: int) -> (u32, u32) {
    let local_x = local_index % 32;
    let local_z = local_index / 32;
    let region_x = region_id % MAX_REGION_SIDE;
    let region_z = region_id / MAX_REGION_SIDE;
    let gx = cell_mod(region_x as int, local_x, 255) as u32;
    let gz = cell_mod(region_z as int, local_z, 255) as u32;
    if local_x == 0 || local_x == 31 || local_z == 0 || local_z == 31 {
        (
            if local_x == 0 {
                0u32
            } else if local_x == 31 {
                256u32
            } else {
                interior_mod(gx, 73, 41) as u32
            },
            if local_z == 0 {
                0u32
            } else if local_z == 31 {
                256u32
            } else {
                interior_mod(gz, 151, 17) as u32
            },
        )
    } else {
        let x3 = cell_mod(region_x as int, local_x, 3);
        let z3 = cell_mod(region_z as int, local_z, 3);
        let class = (x3 + z3 * 3) % 3;
        if class == 0 {
            (64u32, 64u32)
        } else if class == 1 {
            (64u32, 192u32)
        } else {
            (192u32, 192u32)
        }
    }
}

/// The global cell index along an axis modulo `modulus`, for a region
/// coordinate and a cell within it.
pub fn cell_modulo(region: i64, local: u32, modulus: u32) -> (r: u32)
    requires
        modulus > 0,
        (modulus - 1) * 32 + local <= u32::MAX,
    ensures
        r == cell_mod(region as int, local as int, modulus as int),
        r < modulus,
{
    let reduced = match region.checked_rem_euclid(modulus as i64) {
        Some(value) => value,
        None => 0,
    };
    let reduced = reduced as u32;
    (reduced * 32 + local) % modulus
}

/// `(coordinate * multiplier + offset) mod 255 + 1`, wrapping in 32 bits.
pub fn interior_fraction(coordinate: u32, multiplier: u32, offset: u32) -> (r: u32)
    ensures
        r == interior_mod(coordinate, multiplier, offset),
        1 <= r <= 255,
{
    (coordinate.wrapping_mul(multiplier).wrapping_add(offset) % 255) + 1
}

/// The fractional position, in 1/256 of a cell, of an object of the
/// arbitrary fixture.
pub fn arbitrary_fractions(region_id: u32, local_index: usize) -> (r: (u32, u32))
    requires
        local_index < INSTANCES_PER_REGION,
    ensures
        r == fractions(region_id, local_index as int),
{
    let local_x = local_index as u32 % 32;
    let local_z = local_index as u32 / 32;
    let region_x = (region_id % MAX_REGION_SIDE) as i64;
    let region_z = (region_id / MAX_REGION_SIDE) as i64;
    let global_x_255 = cell_modulo(region_x, local_x, 255);
    let global_z_255 = cell_modulo(region_z, local_z, 255);
    if local_x == 0 || local_x == 31 || local_z == 0 || local_z == 31 {
        let u = if local_x == 0 {
            0
        } else if local_x == 31 {
            256
        } else {
            interior_fraction(global_x_255, 73, 41)
        };
        let v = if local_z == 0 {
            0
        } else if local_z == 31 {
            256
        } else {
            interior_fraction(global_z_255, 151, 17)
        };
        return (u, v);
    }
    let global_x_3 = cell_modulo(region_x, local_x, 3);
    let global_z_3 = cell_modulo(region_z, local_z, 3);
    match (global_x_3 + global_z_3 * 3) % 3 {
        0 => (64, 64),
        1 => (64, 192),
        _ => (192, 192),
    }
}


/// The corner of region `region_id` with the least coordinates, in world
/// units: a region is 16 units wide and region 64 straddles the origin.
pub open spec fn minimum_of(region_id: u32) -> (int, int) {
    (((region_id % MAX_REGION_SIDE) as int - 64) * 16 - 8, ((region_id / MAX_REGION_SIDE) as int - 64) * 16 - 8)
}

/// The corner of region `region_id` with the least coordinates.
pub fn region_minimum(region_id: u32) -> (r: [i32; 2])
    ensures
        r[0] as int == minimum_of(region_id).0,
        r[1] as int == minimum_of(region_id).1,
{
    let x = (region_id % MAX_REGION_SIDE) as i32;
    let z = (region_id / MAX_REGION_SIDE) as i32;
    [(x - 64) * 16 - 8, (z - 64) * 16 - 8]
}

/// The position of the `local_index`-th object of the arbitrary fixture
/// within its region, in 1/512 world units (1/256 cell) from the region's
/// least corner: its cell times 256 plus its fractions.
pub open spec fn lattice_of(region_id: u32, local_index: int) -> (int, int) {
    let f = fractions(region_id, local_index);
    ((local_index % 32) * 256 + f.0, (local_index / 32) * 256 + f.1)
}

/// The lattice position of the `local_index`-th object of the arbitrary
/// fixture, as `lattice_of` says; the object sits at the region minimum
/// plus this over 512.
pub fn fixture_lattice(region_id: u32, local_index: usize) -> (r: [u32; 2])
    requires
        local_index < INSTANCES_PER_REGION,
    ensures
        r[0] as int == lattice_of(region_id, local_index as int).0,
        r[1] as int == lattice_of(region_id, local_index as int).1,
{
    let (u, v) = arbitrary_fractions(region_id, local_index);
    let cell_x = local_index as u32 % 32;
    let cell_z = local_index as u32 / 32;
    [cell_x * 256 + u, cell_z * 256 + v]
}

/// The cell and the offset in it, in 1/256 cell, of a lattice coordinate:
/// the coordinate is first held to the region (8192), and the far edge
/// belongs to the last cell.
pub open spec fn lattice_cell(q9: int) -> (int, int) {
    let q = if q9 > 8192 {
        8192
    } else {
        q9
    };
    let cell = if q / 256 > 31 {
        31
    } else {
        q / 256
    };
    (cell, q - cell * 256)
}

/// The triangle of a cell that offsets `u` and `v` (in 1/256 cell) fall in:
/// before the anti-diagonal, on it, or past it.
pub open spec fn triangle_of(u: int, v: int) -> TriangleClass {
    if u + v < 256 {
        TriangleClass::First
    } else if u + v == 256 {
        TriangleClass::Diagonal
    } else {
        TriangleClass::Second
    }
}

/// The ground under the `local_index`-th object of a region, as a numerator
/// over the fixture's ground denominator, and the triangle it falls in. At
/// cell centers: the sum of the two samples on the cell's anti-diagonal. At
/// arbitrary positions: the barycentric blend, with weights in 1/256 cell,
/// of the three samples of the triangle that holds the lattice position.
pub open spec fn ground_at(
    tile: TileHeights,
    local_index: int,
    fixture: CompositionFixture,
    lattice: (int, int),
) -> (int, TriangleClass) {
    match fixture {
        CompositionFixture::CellCenter => {
            let cx = local_index % 32;
            let cz = local_index / 32;
            (tile.at(cx + 1, cz) + tile.at(cx, cz + 1), TriangleClass::Diagonal)
        },
        CompositionFixture::ArbitraryQ8 => {
            let (cx, u) = lattice_cell(lattice.0);
            let (cz, v) = lattice_cell(lattice.1);
            let sum = u + v;
            let value = if sum <= 256 {
                tile.at(cx, cz) * (256 - sum) + tile.at(cx + 1, cz) * u + tile.at(cx, cz + 1) * v
            } else {
                tile.at(cx + 1, cz) * (256 - v) + tile.at(cx, cz + 1) * (256 - u) + tile.at(cx + 1, cz + 1)
                    * (sum - 256)
            };
            (value, triangle_of(u, v))
        },
    }
}

/// `height * weight`, for a sample and a weight of at most one cell.
fn weighted(h: i32, w: u32) -> (r: i32)
    requires
        -32768 <= h <= 32767,
        w <= 256,
    ensures
        r == h * w,
        -32768 * 256 <= r <= 32767 * 256,
{
    assert(-32768 * 256 <= h * w <= 32767 * 256) by (nonlinear_arith)
        requires
            -32768 <= h <= 32767,
            0 <= w <= 256,
    ;
    h * (w as i32)
}

/// The cell and offset of a lattice coordinate, as `lattice_cell` says.
fn cell_and_offset(q9: u32) -> (r: (u32, u32))
    ensures
        r.0 as int == lattice_cell(q9 as int).0,
        r.1 as int == lattice_cell(q9 as int).1,
        r.0 <= 31,
        r.1 <= 256,
{
    let q = if q9 > 8192 {
        8192
    } else {
        q9
    };
    let cell = if q / 256 > 31 {
        31
    } else {
        q / 256
    };
    (cell, q - cell * 256)
}

/// The ground under the `local_index`-th object of a region whose lattice
/// position is `lattice_q9`, as `ground_at` says; at cell centers the
/// lattice position is not read.
pub fn sample_ground(tile: &TileHeights, local_index: usize, fixture: CompositionFixture, lattice_q9: [u32; 2]) -> (r:
    (i32, TriangleClass))
    requires
        tile.wf(),
        local_index < INSTANCES_PER_REGION,
    ensures
        r.0 as int == ground_at(*tile, local_index as int, fixture, (lattice_q9[0] as int, lattice_q9[1] as int)).0,
        r.1 == ground_at(*tile, local_index as int, fixture, (lattice_q9[0] as int, lattice_q9[1] as int)).1,
{
    match fixture {
        CompositionFixture::CellCenter => {
            let cx = local_index as u32 % 32;
            let cz = local_index as u32 / 32;
            let a = height(tile, cx + 1, cz);
            let b = height(tile, cx, cz + 1);
            proof {
                assert(-32768 <= tile.at(cx + 1, cz as int) <= 32767);
                assert(-32768 <= tile.at(cx as int, cz + 1) <= 32767);
            }
            (a + b, TriangleClass::Diagonal)
        },
        CompositionFixture::ArbitraryQ8 => {
            let (cx, u) = cell_and_offset(lattice_q9[0]);
            let (cz, v) = cell_and_offset(lattice_q9[1]);
            let sum = u + v;
            let value = if sum <= 256 {
                weighted(height(tile, cx, cz), 256 - sum) + weighted(height(tile, cx + 1, cz), u) + weighted(
                    height(tile, cx, cz + 1),
                    v,
                )
            } else {
                weighted(height(tile, cx + 1, cz), 256 - v) + weighted(height(tile, cx, cz + 1), 256 - u)
                    + weighted(height(tile, cx + 1, cz + 1), sum - 256)
            };
            let triangle = if sum < 256 {
                TriangleClass::First
            } else if sum == 256 {
                TriangleClass::Diagonal
            } else {
                TriangleClass::Second
            };
            (value, triangle)
        },
    }
}


/// The position of the `local_index`-th object of the arbitrary fixture in
/// region `region_id`, in 1/512 world units.
pub open spec fn fixture_position(region_id: u32, local_index: int) -> (int, int) {
    let m = minimum_of(region_id);
    let l = lattice_of(region_id, local_index);
    (m.0 * 512 + l.0, m.1 * 512 + l.1)
}

/// A fraction of the arbitrary fixture lies within its cell, and reaches the
/// far edge only in the region's last cell along that axis.
proof fn lemma_fractions_bounded(region_id: u32, local_index: int)
    requires
        0 <= local_index < INSTANCES_PER_REGION,
    ensures
        fractions(region_id, local_index).0 <= 256,
        fractions(region_id, local_index).1 <= 256,
        fractions(region_id, local_index).0 == 256 ==> local_index % 32 == 31,
        fractions(region_id, local_index).1 == 256 ==> local_index / 32 == 31,
{
}

/// The cell and offset of `cell * 256 + offset`, for an offset within the
/// cell that reaches the far edge only in the last cell.
proof fn lemma_lattice_cell_of(cell: int, offset: int)
    requires
        0 <= cell <= 31,
        0 <= offset <= 256,
        offset == 256 ==> cell == 31,
    ensures
        lattice_cell(cell * 256 + offset) == (cell, offset),
{
    if offset < 256 {
        assert((cell * 256 + offset) / 256 == cell) by (nonlinear_arith)
            requires
                0 <= cell,
                0 <= offset < 256,
        ;
    } else {
        assert(cell * 256 + offset == 8192);
    }
}

/// Sampling the ground at an arbitrary-fixture object's own lattice
/// position finds the object's own cell, at the object's own fractions.
pub proof fn law_fixture_objects_sample_their_own_cell(region_id: u32, local_index: int)
    requires
        0 <= local_index < INSTANCES_PER_REGION,
    ensures
        lattice_cell(lattice_of(region_id, local_index).0) == (local_index % 32, fractions(
            region_id,
            local_index,
        ).0 as int),
        lattice_cell(lattice_of(region_id, local_index).1) == (local_index / 32, fractions(
            region_id,
            local_index,
        ).1 as int),
{
    lemma_fractions_bounded(region_id, local_index);
    lemma_lattice_cell_of(local_index % 32, fractions(region_id, local_index).0 as int);
    lemma_lattice_cell_of(local_index / 32, fractions(region_id, local_index).1 as int);
}

/// Objects of the arbitrary fixture on the shared edge of two neighboring
/// regions sit at the same position: the last column of a region meets the
/// first column of the region east of it, and its last row the first row of
/// the region south of it, object for object along the edge.
pub proof fn law_fixture_boundaries_coincide(region_id: u32, along: int)
    requires
        0 <= along < 32,
    ensures
        region_id % MAX_REGION_SIDE < MAX_REGION_SIDE - 1 ==> fixture_position(region_id, along * 32 + 31)
            == fixture_position((region_id + 1) as u32, along * 32),
        region_id + MAX_REGION_SIDE <= u32::MAX ==> fixture_position(region_id, 31 * 32 + along)
            == fixture_position((region_id + MAX_REGION_SIDE) as u32, along),
{
    let r = region_id as int;
    if region_id % MAX_REGION_SIDE < MAX_REGION_SIDE - 1 {
        let next = (region_id + 1) as u32;
        vstd::arithmetic::div_mod::lemma_fundamental_div_mod_converse(
            next as int,
            128,
            r / 128,
            r % 128 + 1,
        );
        assert((along * 32 + 31) % 32 == 31 && (along * 32 + 31) / 32 == along) by (nonlinear_arith)
            requires
                0 <= along < 32,
        ;
        assert((along * 32) % 32 == 0 && (along * 32) / 32 == along) by (nonlinear_arith)
            requires
                0 <= along < 32,
        ;
    }
    if region_id + MAX_REGION_SIDE <= u32::MAX {
        let below = (region_id + MAX_REGION_SIDE) as u32;
        vstd::arithmetic::div_mod::lemma_fundamental_div_mod_converse(
            below as int,
            128,
            r / 128 + 1,
            r % 128,
        );
        assert((31 * 32 + along) % 32 == along && (31 * 32 + along) / 32 == 31) by (nonlinear_arith)
            requires
                0 <= along < 32,
        ;
        assert(along % 32 == along && along / 32 == 0);
    }
}


/// Objects of the arbitrary fixture that face each other across the shared
/// edge of two neighboring regions get the same ground when the two tiles
/// agree along that edge: the last column of a tile and the first column of
/// the tile east of it, or the last row and the first row of the tile south
/// of it.
pub proof fn law_fixture_boundary_ground_agrees(
    region_id: u32,
    west: TileHeights,
    east: TileHeights,
    north: TileHeights,
    south: TileHeights,
    along: int,
)
    requires
        0 <= along < 32,
    ensures
        region_id % MAX_REGION_SIDE < MAX_REGION_SIDE - 1 && (forall|z: int|
            0 <= z <= 32 ==> #[trigger] west.at(32, z) == east.at(0, z)) ==> ground_at(
            west,
            along * 32 + 31,
            CompositionFixture::ArbitraryQ8,
            lattice_of(region_id, along * 32 + 31),
        ).0 == ground_at(
            east,
            along * 32,
            CompositionFixture::ArbitraryQ8,
            lattice_of((region_id + 1) as u32, along * 32),
        ).0,
        region_id + MAX_REGION_SIDE <= u32::MAX && (forall|x: int|
            0 <= x <= 32 ==> #[trigger] north.at(x, 32) == south.at(x, 0)) ==> ground_at(
            north,
            31 * 32 + along,
            CompositionFixture::ArbitraryQ8,
            lattice_of(region_id, 31 * 32 + along),
        ).0 == ground_at(
            south,
            along,
            CompositionFixture::ArbitraryQ8,
            lattice_of((region_id + MAX_REGION_SIDE) as u32, along),
        ).0,
{
    let r = region_id as int;
    assert((along * 32 + 31) % 32 == 31 && (along * 32 + 31) / 32 == along) by (nonlinear_arith)
        requires
            0 <= along < 32,
    ;
    assert((along * 32) % 32 == 0 && (along * 32) / 32 == along) by (nonlinear_arith)
        requires
            0 <= along < 32,
    ;
    assert((31 * 32 + along) % 32 == along && (31 * 32 + along) / 32 == 31) by (nonlinear_arith)
        requires
            0 <= along < 32,
    ;
    assert(along % 32 == along && along / 32 == 0);
    if region_id % MAX_REGION_SIDE < MAX_REGION_SIDE - 1 && (forall|z: int|
        0 <= z <= 32 ==> #[trigger] west.at(32, z) == east.at(0, z)) {
        let next = (region_id + 1) as u32;
        vstd::arithmetic::div_mod::lemma_fundamental_div_mod_converse(next as int, 128, r / 128, r % 128 + 1);
        law_fixture_objects_sample_their_own_cell(region_id, along * 32 + 31);
        law_fixture_objects_sample_their_own_cell(next, along * 32);
        let v = fractions(region_id, along * 32 + 31).1 as int;
        assert(fractions(next, along * 32).1 as int == v);
        lemma_fractions_bounded(region_id, along * 32 + 31);
        assert(west.at(32, along) == east.at(0, along));
        assert(west.at(32, along + 1) == east.at(0, along + 1));
        if v == 0 {
            assert(west.at(32, along) * 256 == east.at(0, along) * 256);
        } else {
            assert(west.at(32, along) * (256 - v) == east.at(0, along) * (256 - v));
            assert(west.at(32, along + 1) * v == east.at(0, along + 1) * v);
        }
    }
    if region_id + MAX_REGION_SIDE <= u32::MAX && (forall|x: int|
        0 <= x <= 32 ==> #[trigger] north.at(x, 32) == south.at(x, 0)) {
        let below = (region_id + MAX_REGION_SIDE) as u32;
        vstd::arithmetic::div_mod::lemma_fundamental_div_mod_converse(below as int, 128, r / 128 + 1, r % 128);
        law_fixture_objects_sample_their_own_cell(region_id, 31 * 32 + along);
        law_fixture_objects_sample_their_own_cell(below, along);
        let u = fractions(region_id, 31 * 32 + along).0 as int;
        assert(fractions(below, along).0 as int == u);
        lemma_fractions_bounded(region_id, 31 * 32 + along);
        assert(north.at(along, 32) == south.at(along, 0));
        assert(north.at(along + 1, 32) == south.at(along + 1, 0));
        if u == 0 {
            assert(north.at(along, 32) * 256 == south.at(along, 0) * 256);
        } else {
            assert(north.at(along, 32) * (256 - u) == south.at(along, 0) * (256 - u));
            assert(north.at(along + 1, 32) * u == south.at(along + 1, 0) * u);
        }
    }
}

} // verus!
