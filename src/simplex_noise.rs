use vstd::prelude::*;
use crate::noise::{kernel_spec, low_byte, Noise};
use crate::rng::JavaRandom;

verus! {

/// The gradient index of a simplex corner in two dimensions: two chained
/// table lookups over the low bytes of the cell, plus the corner's offset,
/// with byte arithmetic, reduced modulo 12.
pub open spec fn gradient_index_2d_spec(p: Seq<u8>, x: i32, z: i32, dx: int, dz: int) -> int {
    let inner = p[(low_byte(z) + dz) % 256] as int;
    (p[(low_byte(x) + dx + inner) % 256] as int) % 12
}

/// The gradient index of a simplex corner in three dimensions: three
/// chained table lookups, reduced modulo 12.
pub open spec fn gradient_index_3d_spec(p: Seq<u8>, x: i32, y: i32, z: i32, dx: int, dy: int, dz: int) -> int {
    let innermost = p[(low_byte(z) + dz) % 256] as int;
    let inner = p[(low_byte(y) + dy + innermost) % 256] as int;
    (p[(low_byte(x) + dx + inner) % 256] as int) % 12
}

/// The offsets of the second and third corners of the 3D simplex, chosen by
/// comparing the local coordinates: `x_ge_y` is `x >= y`, `y_ge_z` is
/// `y >= z` and `x_ge_z` is `x >= z`. The second corner steps along the
/// largest coordinate, the third along the two largest.
pub open spec fn corner_offsets_spec(x_ge_y: bool, y_ge_z: bool, x_ge_z: bool) -> ((u8, u8, u8), (u8, u8, u8)) {
    if x_ge_y {
        if y_ge_z {
            ((1, 0, 0), (1, 1, 0))
        } else if x_ge_z {
            ((1, 0, 0), (1, 0, 1))
        } else {
            ((0, 0, 1), (1, 0, 1))
        }
    } else if !y_ge_z {
        ((0, 0, 1), (0, 1, 1))
    } else if !x_ge_z {
        ((0, 1, 0), (0, 1, 1))
    } else {
        ((0, 1, 0), (1, 1, 0))
    }
}

/// The corner offsets of the 3D simplex that holds a point.
pub fn corner_offsets_3d(x_ge_y: bool, y_ge_z: bool, x_ge_z: bool) -> (r: ((u8, u8, u8), (u8, u8, u8)))
    ensures
        r == corner_offsets_spec(x_ge_y, y_ge_z, x_ge_z),
{
    if x_ge_y {
        if y_ge_z {
            ((1, 0, 0), (1, 1, 0))
        } else if x_ge_z {
            ((1, 0, 0), (1, 0, 1))
        } else {
            ((0, 0, 1), (1, 0, 1))
        }
    } else if !y_ge_z {
        ((0, 0, 1), (0, 1, 1))
    } else if !x_ge_z {
        ((0, 1, 0), (0, 1, 1))
    } else {
        ((0, 1, 0), (1, 1, 0))
    }
}

/// Simplex noise over one gradient-noise kernel's offsets and table.
pub struct SimplexNoise {
    pub noise: Noise,
}

impl SimplexNoise {
    /// The kernel's offsets and table are well formed.
    pub open spec fn wf(&self) -> bool {
        self.noise.wf()
    }

    /// Simplex noise over `noise`.
    pub fn new(noise: Noise) -> (r: Self)
        ensures
            r.noise == noise,
    {
        SimplexNoise { noise }
    }

    /// Simplex noise over a kernel drawn from `random`.
    pub fn init(random: JavaRandom) -> (r: SimplexNoise)
        ensures
            r.wf(),
            r.noise@ == kernel_spec(random.state()).0,
    {
        let mut random = random;
        SimplexNoise::new(Noise::new(&mut random))
    }

    fn lookup(&self, n: usize) -> (r: usize)
        requires
            self.wf(),
        ensures
            r == self.noise.permutations@[(n % 256) as int],
            r < 256,
    {
        self.noise.permutations[n % 256] as usize
    }

    /// The gradient index of the corner `(x + dx, z + dz)` of the 2D cell at
    /// `(x, z)`.
    pub fn gradient_index_2d(&self, x: i32, z: i32, dx: u8, dz: u8) -> (r: u8)
        requires
            self.wf(),
        ensures
            r == gradient_index_2d_spec(self.noise.permutations@, x, z, dx as int, dz as int),
            r < 12,
    {
        assert(0 <= x & 255 <= 255) by (bit_vector);
        assert(0 <= z & 255 <= 255) by (bit_vector);
        let inner = self.lookup((z & 255) as usize + dz as usize);
        (self.lookup((x & 255) as usize + dx as usize + inner) % 12) as u8
    }

    /// The gradient index of the corner `(x + dx, y + dy, z + dz)` of the 3D
    /// cell at `(x, y, z)`.
    pub fn gradient_index_3d(&self, x: i32, y: i32, z: i32, dx: u8, dy: u8, dz: u8) -> (r: u8)
        requires
            self.wf(),
        ensures
            r == gradient_index_3d_spec(self.noise.permutations@, x, y, z, dx as int, dy as int, dz as int),
            r < 12,
    {
        assert(0 <= x & 255 <= 255) by (bit_vector);
        assert(0 <= y & 255 <= 255) by (bit_vector);
        assert(0 <= z & 255 <= 255) by (bit_vector);
        let innermost = self.lookup((z & 255) as usize + dz as usize);
        let inner = self.lookup((y & 255) as usize + dy as usize + innermost);
        (self.lookup((x & 255) as usize + dx as usize + inner) % 12) as u8
    }
}

} // verus!
