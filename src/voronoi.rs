use vstd::prelude::*;
use vstd::wrapping::i64_specs::{wrapping_add, wrapping_mul};
use std::collections::HashMap;
use crate::math::{floor_mod, floor_mod_spec};

verus! {

broadcast use vstd::std_specs::hash::group_hash_axioms;

/// Multiplier of the seed-mixing generator.
pub const MIX_MULTIPLIER: i64 = 6364136223846793005;

/// Increment of the seed-mixing generator.
pub const MIX_INCREMENT: i64 = 1442695040888963407;

/// One step of the seed-mixing generator in wrapping 64-bit arithmetic:
/// `state * state * MIX_MULTIPLIER + MIX_INCREMENT + salt`.
pub open spec fn next_spec(state: i64, salt: i64) -> i64 {
    wrapping_add(wrapping_add(wrapping_mul(wrapping_mul(state, state), MIX_MULTIPLIER), MIX_INCREMENT), salt)
}

/// Mixes `salt` into `world_seed`.
pub fn next(world_seed: i64, salt: i64) -> (r: i64)
    ensures
        r == next_spec(world_seed, salt),
{
    world_seed.wrapping_mul(world_seed).wrapping_mul(MIX_MULTIPLIER).wrapping_add(MIX_INCREMENT).wrapping_add(salt)
}

/// The hash of the cell `(x, y, z)`: the world seed mixed with the cell's
/// coordinates twice over, `x, y, z, x, y, z`.
pub open spec fn cell_hash(world_seed: i64, x: i64, y: i64, z: i64) -> i64 {
    next_spec(next_spec(next_spec(next_spec(next_spec(next_spec(world_seed, x), y), z), x), y), z)
}

/// The jitter that a hash gives, in units of `0.9 / 1024`: bits 24 to 33 of
/// the hash, centred on zero. The offset it stands for is
/// `(floor_mod(h >> 24, 1024) / 1024 - 0.5) * 0.9`.
pub open spec fn jitter(h: i64) -> int {
    floor_mod_spec((h >> 24) as int, 1024) - 512
}

/// The square of one axis of the distance, in units of `1 / 10240`: the
/// quarter-cell offset `q / 4` plus the jitter `9 * j / 10240`.
pub open spec fn axis_term(q: int, j: int) -> int {
    (2560 * q + 9 * j) * (2560 * q + 9 * j)
}

/// The squared distance, in units of `1 / 10240^2`, between the query at
/// local quarter offsets `(qx, qy, qz)` and the jittered corner of the cell
/// `(cx, cy, cz)`. The jitters come from the cell hash and two further mixes
/// of it with the world seed.
///
/// In these units every distance is an integer, so candidates compare
/// exactly; an evaluation of the same formula in doubles orders them the
/// same way except where two candidates tie exactly.
pub open spec fn corner_distance(world_seed: i64, cx: int, cy: int, cz: int, qx: int, qy: int, qz: int) -> int {
    let hx = cell_hash(world_seed, cx as i64, cy as i64, cz as i64);
    let hy = next_spec(hx, world_seed);
    let hz = next_spec(hy, world_seed);
    axis_term(qz, jitter(hz)) + axis_term(qy, jitter(hy)) + axis_term(qx, jitter(hx))
}

/// The bit of corner index `c` that moves it one cell along an axis:
/// 4 for `x`, 2 for `y`, 1 for `z`.
pub open spec fn corner_bit(c: int, weight: int) -> int {
    (c / weight) % 2
}

/// The coarse cell of a coordinate, after the shift by -2.
pub open spec fn reduced(v: i32) -> int {
    (v - 2) / 4
}

/// The quarter offset of a coordinate within its coarse cell.
pub open spec fn quarter(v: i32) -> int {
    (v - 2) % 4
}

/// The distances of the eight candidate corners, corner `c` lying at
/// `reduced + (bit 4, bit 2, bit 1 of c)`.
pub open spec fn corner_distances(world_seed: i64, x: i32, y: i32, z: i32) -> Seq<int> {
    Seq::new(
        8,
        |c: int|
            corner_distance(
                world_seed,
                reduced(x) + corner_bit(c, 4),
                reduced(y) + corner_bit(c, 2),
                reduced(z) + corner_bit(c, 1),
                quarter(x) - 4 * corner_bit(c, 4),
                quarter(y) - 4 * corner_bit(c, 2),
                quarter(z) - 4 * corner_bit(c, 1),
            ),
    )
}

/// Corner `c` holds the largest of the eight values, and every corner
/// before it a smaller one: the first maximum of a linear scan.
pub open spec fn is_first_max(d: Seq<int>, c: int) -> bool {
    &&& 0 <= c < 8
    &&& forall|k: int| 0 <= k < 8 ==> d[k] <= d[c]
    &&& forall|k: int| 0 <= k < c ==> d[k] < d[c]
}

/// The index of the first maximum of eight values.
pub open spec fn first_max(d: Seq<int>) -> int {
    choose|c: int| is_first_max(d, c)
}

/// The cell that the fuzzy position of `(x, y, z)` lands in.
pub open spec fn fuzzy_position_spec(world_seed: i64, x: i32, y: i32, z: i32) -> (int, int, int) {
    let c = first_max(corner_distances(world_seed, x, y, z));
    (reduced(x) + corner_bit(c, 4), reduced(y) + corner_bit(c, 2), reduced(z) + corner_bit(c, 1))
}

proof fn lemma_first_max_unique(d: Seq<int>, c: int)
    requires
        is_first_max(d, c),
    ensures
        first_max(d) == c,
{
    let f = first_max(d);
    assert(is_first_max(d, f));
    if f < c {
        assert(d[f] < d[c]);
    } else if c < f {
        assert(d[c] < d[f]);
    }
}

/// Asking twice for the same query gives the same cell: whatever the cache
/// held, each answer is the fuzzy position of the query under the seed.
pub proof fn lemma_repeated_query(world_seed: i64, x: i32, y: i32, z: i32, first: (i32, i32, i32), second: (i32, i32, i32))
    requires
        (first.0 as int, first.1 as int, first.2 as int) == fuzzy_position_spec(world_seed, x, y, z),
        (second.0 as int, second.1 as int, second.2 as int) == fuzzy_position_spec(world_seed, x, y, z),
    ensures
        first == second,
{
}

/// Three coordinates packed by their low 32 bits: `x << 64 | y << 32 | z`.
pub open spec fn pack3(x: i32, y: i32, z: i32) -> u128 {
    ((x as u32) as u128) << 64u128 | ((y as u32) as u128) << 32u128 | (z as u32) as u128
}

/// The three coordinates of a packed value.
pub open spec fn unpack3(v: u128) -> (i32, i32, i32) {
    (((v >> 64u128) & 0xFFFF_FFFF) as u32 as i32, ((v >> 32u128) & 0xFFFF_FFFF) as u32 as i32, (v & 0xFFFF_FFFF) as u32 as i32)
}

proof fn lemma_unpack_pack(x: i32, y: i32, z: i32)
    ensures
        unpack3(pack3(x, y, z)) == (x, y, z),
{
    let (a, b, c) = (x as u32, y as u32, z as u32);
    let v = pack3(x, y, z);
    assert(((((a as u128) << 64u128 | (b as u128) << 32u128 | c as u128) >> 64u128) & 0xFFFF_FFFF) as u32 == a) by (bit_vector);
    assert(((((a as u128) << 64u128 | (b as u128) << 32u128 | c as u128) >> 32u128) & 0xFFFF_FFFF) as u32 == b) by (bit_vector);
    assert((((a as u128) << 64u128 | (b as u128) << 32u128 | c as u128) & 0xFFFF_FFFF) as u32 == c) by (bit_vector);
    assert((x as u32) as i32 == x) by (bit_vector);
    assert((y as u32) as i32 == y) by (bit_vector);
    assert((z as u32) as i32 == z) by (bit_vector);
}

/// Voronoi cell noise: the world seed and a cache from packed query
/// coordinates to packed results.
pub struct Voronoi {
    cache: HashMap<u128, u128>,
    world_seed: i64,
}

fn pack(x: i32, y: i32, z: i32) -> (r: u128)
    ensures
        r == pack3(x, y, z),
{
    ((x as u32) as u128) << 64u128 | ((y as u32) as u128) << 32u128 | (z as u32) as u128
}

fn unpack(v: u128) -> (r: (i32, i32, i32))
    ensures
        r == unpack3(v),
{
    (((v >> 64u128) & 0xFFFF_FFFF) as u32 as i32, ((v >> 32u128) & 0xFFFF_FFFF) as u32 as i32, (v & 0xFFFF_FFFF) as u32 as i32)
}

/// The coarse cell and the quarter offset of a coordinate.
fn split(v: i32) -> (r: (i64, i64))
    ensures
        r.0 == reduced(v),
        r.1 == quarter(v),
        -0x2000_0001 <= r.0 <= 0x2000_0000,
        0 <= r.1 < 4,
{
    let moved: i64 = v as i64 - 2;
    let cell: i64 = match moved.checked_div_euclid(4) {
        Some(c) => c,
        None => 0,
    };
    let offset: i64 = match moved.checked_rem_euclid(4) {
        Some(m) => m,
        None => 0,
    };
    (cell, offset)
}

/// The jitter of a hash, in units of `0.9 / 1024`.
fn get_fiddle(h: i64) -> (r: i64)
    ensures
        r == jitter(h),
        -512 <= r < 512,
{
    floor_mod(h >> 24u64, 1024) - 512
}

fn axis(q: i64, j: i64) -> (r: i64)
    requires
        -4 <= q <= 3,
        -512 <= j < 512,
    ensures
        r == axis_term(q as int, j as int),
        0 <= r <= 0x1000_0000,
{
    let n: i64 = 2560 * q + 9 * j;
    assert(-14848 <= n <= 14279);
    assert(0 <= n * n <= 0x1000_0000) by (nonlinear_arith)
        requires
            -14848 <= n <= 14279,
    ;
    n * n
}

impl Voronoi {
    /// The world seed.
    pub closed spec fn seed(&self) -> i64 {
        self.world_seed
    }

    /// The cache: packed query coordinates to packed results.
    pub closed spec fn cached(&self) -> Map<u128, u128> {
        self.cache@
    }

    /// Every cached entry is the packed fuzzy position of its packed key.
    pub closed spec fn wf(&self) -> bool {
        forall|k: u128| #[trigger] self.cache@.contains_key(k) ==> {
            let (x, y, z) = unpack3(k);
            let (fx, fy, fz) = fuzzy_position_spec(self.world_seed, x, y, z);
            self.cache@[k] == pack3(fx as i32, fy as i32, fz as i32)
        }
    }

    /// A Voronoi noise for `world_seed`, with an empty cache.
    pub fn new(world_seed: i64) -> (r: Self)
        ensures
            r.wf(),
            r.seed() == world_seed,
            r.cached() == Map::<u128, u128>::empty(),
    {
        let cache: HashMap<u128, u128> = HashMap::new();
        Voronoi { cache, world_seed }
    }

    /// The fuzzy position of `(x, y, z)`: the candidate corner, of the eight
    /// around the query's coarse cell, with the largest jittered distance,
    /// the first in corner order on ties. Served from the cache when the
    /// query was seen before, and cached otherwise.
    pub fn get_fuzzy_positions(&mut self, x: i32, y: i32, z: i32) -> (r: (i32, i32, i32))
        requires
            old(self).wf(),
        ensures
            final(self).wf(),
            final(self).seed() == old(self).seed(),
            final(self).cached().contains_key(pack3(x, y, z)),
            old(self).cached().submap_of(final(self).cached()),
            old(self).cached().contains_key(pack3(x, y, z)) ==> final(self).cached() == old(self).cached(),
            (r.0 as int, r.1 as int, r.2 as int) == fuzzy_position_spec(old(self).seed(), x, y, z),
            r.0 == reduced(x) || r.0 == reduced(x) + 1,
            r.1 == reduced(y) || r.1 == reduced(y) + 1,
            r.2 == reduced(z) || r.2 == reduced(z) + 1,
    {
        let key = pack(x, y, z);
        proof {
            lemma_unpack_pack(x, y, z);
        }
        match self.cache.get(&key) {
            Some(v) => {
                let value: u128 = *v;
                let ghost (fx, fy, fz) = fuzzy_position_spec(self.world_seed, x, y, z);
                assert(self.cache@.contains_key(key));
                proof {
                    lemma_unpack_pack(fx as i32, fy as i32, fz as i32);
                    self.lemma_fuzzy_in_range(x, y, z);
                }
                return unpack(value);
            },
            None => {},
        }
        let (xx, yy, zz) = self._get_fuzzy_positions(x, y, z);
        let value = pack(xx, yy, zz);
        self.cache.insert(key, value);
        proof {
            assert forall|k: u128| #[trigger] self.cache@.contains_key(k) implies {
                let (a, b, c) = unpack3(k);
                let (fx, fy, fz) = fuzzy_position_spec(self.world_seed, a, b, c);
                self.cache@[k] == pack3(fx as i32, fy as i32, fz as i32)
            } by {
                if k != key {
                    assert(old(self).cache@.contains_key(k));
                }
            }
        }
        (xx, yy, zz)
    }

    proof fn lemma_fuzzy_in_range(&self, x: i32, y: i32, z: i32)
        ensures
            ({
                let (fx, fy, fz) = fuzzy_position_spec(self.world_seed, x, y, z);
                &&& fx == reduced(x) || fx == reduced(x) + 1
                &&& fy == reduced(y) || fy == reduced(y) + 1
                &&& fz == reduced(z) || fz == reduced(z) + 1
            }),
    {
        let c = first_max(corner_distances(self.world_seed, x, y, z));
        assert(0 <= corner_bit(c, 4) <= 1);
        assert(0 <= corner_bit(c, 2) <= 1);
        assert(0 <= corner_bit(c, 1) <= 1);
    }

    /// The squared distance, in units of `1 / 10240^2`, from the query's
    /// local offset to the jittered corner of the cell `(x, y, z)`.
    fn get_fiddled_distance(&self, x: i64, y: i64, z: i64, qx: i64, qy: i64, qz: i64) -> (r: i64)
        requires
            -4 <= qx <= 3,
            -4 <= qy <= 3,
            -4 <= qz <= 3,
        ensures
            r == corner_distance(self.world_seed, x as int, y as int, z as int, qx as int, qy as int, qz as int),
    {
        let mut fiddle: i64 = next(self.world_seed, x);
        fiddle = next(fiddle, y);
        fiddle = next(fiddle, z);
        fiddle = next(fiddle, x);
        fiddle = next(fiddle, y);
        fiddle = next(fiddle, z);
        let x_offset = get_fiddle(fiddle);
        fiddle = next(fiddle, self.world_seed);
        let y_offset = get_fiddle(fiddle);
        fiddle = next(fiddle, self.world_seed);
        let z_offset = get_fiddle(fiddle);
        axis(qz, z_offset) + axis(qy, y_offset) + axis(qx, x_offset)
    }

    fn _get_fuzzy_positions(&self, x: i32, y: i32, z: i32) -> (r: (i32, i32, i32))
        ensures
            (r.0 as int, r.1 as int, r.2 as int) == fuzzy_position_spec(self.world_seed, x, y, z),
    {
        let (reduced_x, x_quarter) = split(x);
        let (reduced_y, y_quarter) = split(y);
        let (reduced_z, z_quarter) = split(z);
        let ghost d = corner_distances(self.world_seed, x, y, z);
        let mut distances: Vec<i64> = Vec::new();
        let mut cell: i64 = 0;
        while cell < 8
            invariant
                0 <= cell <= 8,
                distances@.len() == cell,
                reduced_x == reduced(x),
                reduced_y == reduced(y),
                reduced_z == reduced(z),
                x_quarter == quarter(x),
                y_quarter == quarter(y),
                z_quarter == quarter(z),
                -0x2000_0001 <= reduced_x <= 0x2000_0000,
                -0x2000_0001 <= reduced_y <= 0x2000_0000,
                -0x2000_0001 <= reduced_z <= 0x2000_0000,
                0 <= x_quarter < 4,
                0 <= y_quarter < 4,
                0 <= z_quarter < 4,
                d == corner_distances(self.world_seed, x, y, z),
                forall|k: int| 0 <= k < cell ==> distances@[k] == d[k],
            decreases 8 - cell,
        {
            let bit_x = (cell / 4) % 2;
            let bit_y = (cell / 2) % 2;
            let bit_z = cell % 2;
            assert(cell % 2 == corner_bit(cell as int, 1));
            let dist = self.get_fiddled_distance(
                reduced_x + bit_x,
                reduced_y + bit_y,
                reduced_z + bit_z,
                x_quarter - 4 * bit_x,
                y_quarter - 4 * bit_y,
                z_quarter - 4 * bit_z,
            );
            distances.push(dist);
            cell = cell + 1;
        }
        let mut max_index: usize = 0;
        let mut max: i64 = distances[0];
        let mut cell: usize = 1;
        while cell < 8
            invariant
                1 <= cell <= 8,
                distances@.len() == 8,
                forall|k: int| 0 <= k < 8 ==> distances@[k] == d[k],
                max_index < cell,
                max == d[max_index as int],
                forall|k: int| 0 <= k < cell ==> d[k] <= max,
                forall|k: int| 0 <= k < max_index ==> d[k] < max,
            decreases 8 - cell,
        {
            if distances[cell] > max {
                max_index = cell;
                max = distances[cell];
            }
            cell = cell + 1;
        }
        proof {
            lemma_first_max_unique(d, max_index as int);
        }
        let c = max_index as i64;
        (
            (reduced_x + (c / 4) % 2) as i32,
            (reduced_y + (c / 2) % 2) as i32,
            (reduced_z + c % 2) as i32,
        )
    }
}

} // verus!
