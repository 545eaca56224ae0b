use vstd::prelude::*;
use vstd::arithmetic::power2::pow2;
use crate::rng::{bounded_draw, double_draw, JavaRandom};

verus! {

/// The byte `v` stands at some index of the table.
pub open spec fn holds_byte(p: Seq<u8>, v: u8) -> bool {
    exists|i: int| 0 <= i < 256 && p[i] == v
}

/// Every byte value appears exactly once among the 256 entries.
pub open spec fn is_permutation(p: Seq<u8>) -> bool {
    &&& p.len() == 256
    &&& forall|i: int, j: int| 0 <= i < j < 256 ==> #[trigger] p[i] != #[trigger] p[j]
    &&& forall|v: u8| #[trigger] holds_byte(p, v)
}

/// The draws of a shuffle: draw `k` lies in `0..256 - k`.
pub open spec fn valid_draws(draws: Seq<i32>) -> bool {
    &&& draws.len() == 256
    &&& forall|k: int| 0 <= k < 256 ==> 0 <= #[trigger] draws[k] < 256 - k
}

/// The table after the first `n` swaps of the shuffle that `draws` drives,
/// starting from the identity: swap `k` exchanges the entries at `k` and at
/// `k + draws[k]`.
pub open spec fn shuffled(draws: Seq<i32>, n: nat) -> Seq<u8>
    decreases n,
{
    if n == 0 {
        Seq::new(256, |i: int| i as u8)
    } else {
        let p = shuffled(draws, (n - 1) as nat);
        let k = n - 1;
        let j = k + draws[k];
        p.update(j, p[k]).update(k, p[j])
    }
}

/// Whatever the draws, as long as each lies in its range, the shuffle leaves
/// a permutation of the 256 byte values.
pub proof fn lemma_shuffle_is_permutation(draws: Seq<i32>, n: nat)
    requires
        valid_draws(draws),
        n <= 256,
    ensures
        is_permutation(shuffled(draws, n)),
    decreases n,
{
    if n == 0 {
        let p = shuffled(draws, 0);
        assert forall|b: u8| #[trigger] holds_byte(p, b) by {
            assert(p[b as int] == b);
        }
    } else {
        let k = n - 1;
        lemma_shuffle_is_permutation(draws, (n - 1) as nat);
        assert(0 <= draws[k] < 256 - k);
        lemma_swap_keeps_permutation(shuffled(draws, (n - 1) as nat), k, k + draws[k]);
    }
}

/// The table entry at index `i`, taken modulo 256.
pub open spec fn perm_at(p: Seq<u8>, i: int) -> int {
    p[i % 256] as int
}

/// The low eight bits of a lattice coordinate.
pub open spec fn low_byte(v: i32) -> int {
    (v & 255) as int
}

/// The hash byte of the lattice corner `(x + dx, y + dy, z + dz)`: three
/// chained table lookups, one per axis, and a fourth that picks the byte.
pub open spec fn corner_hash(p: Seq<u8>, x: i32, y: i32, z: i32, dx: int, dy: int, dz: int) -> u8 {
    let a = perm_at(p, low_byte(x) + dx) + low_byte(y);
    let b = perm_at(p, a + dy) + low_byte(z);
    p[(b + dz) % 256]
}

/// Corner `c` of the unit cube has offsets `(c & 1, (c >> 1) & 1, c >> 2)`.
pub open spec fn corner_hashes_spec(p: Seq<u8>, x: i32, y: i32, z: i32) -> Seq<u8> {
    seq![
        corner_hash(p, x, y, z, 0, 0, 0),
        corner_hash(p, x, y, z, 1, 0, 0),
        corner_hash(p, x, y, z, 0, 1, 0),
        corner_hash(p, x, y, z, 1, 1, 0),
        corner_hash(p, x, y, z, 0, 0, 1),
        corner_hash(p, x, y, z, 1, 0, 1),
        corner_hash(p, x, y, z, 0, 1, 1),
        corner_hash(p, x, y, z, 1, 1, 1),
    ]
}

/// The first `k` draws of a shuffle from state `s`, draw `j` being a
/// bounded draw of `0..256 - j`, and the state after them.
pub open spec fn shuffle_draws(s: nat, k: nat) -> (Seq<i32>, nat)
    decreases k,
{
    if k == 0 {
        (Seq::empty(), s)
    } else {
        let (d, t) = shuffle_draws(s, (k - 1) as nat);
        let (v, u) = bounded_draw(t, 256 - (k - 1));
        (d.push(v as i32), u)
    }
}

/// What a kernel holds: its three offset numerators and its table.
pub struct KernelView {
    pub x0: nat,
    pub y0: nat,
    pub z0: nat,
    pub table: Seq<u8>,
}

/// The kernel drawn from state `s`, and the state after it: three double
/// draws for the offsets, then the 256 draws of the shuffle.
pub open spec fn kernel_spec(s: nat) -> (KernelView, nat) {
    let (x0, s1) = double_draw(s);
    let (y0, s2) = double_draw(s1);
    let (z0, s3) = double_draw(s2);
    let (draws, s4) = shuffle_draws(s3, 256);
    (KernelView { x0, y0, z0, table: shuffled(draws, 256) }, s4)
}

/// The gradient-noise kernel: a random offset and a permutation of the bytes.
///
/// Each offset is kept as the 53-bit numerator of the `nextDouble()` draw it
/// came from; the offset itself is that numerator times `2^-45`, which is the
/// draw times 256, and converts to a double exactly.
pub struct Noise {
    pub x0: u64,
    pub y0: u64,
    pub z0: u64,
    pub permutations: Vec<u8>,
}

proof fn lemma_swap_keeps_permutation(p: Seq<u8>, a: int, b: int)
    requires
        is_permutation(p),
        0 <= a < 256,
        0 <= b < 256,
    ensures
        is_permutation(p.update(b, p[a]).update(a, p[b])),
{
    let q = p.update(b, p[a]).update(a, p[b]);
    assert forall|v: u8| #[trigger] holds_byte(q, v) by {
        assert(holds_byte(p, v));
        let i = choose|i: int| 0 <= i < 256 && p[i] == v;
        if i == a {
            assert(q[b] == v);
        } else if i == b {
            assert(q[a] == v);
        } else {
            assert(q[i] == v);
        }
    }
}

impl View for Noise {
    type V = KernelView;

    open spec fn view(&self) -> KernelView {
        KernelView { x0: self.x0 as nat, y0: self.y0 as nat, z0: self.z0 as nat, table: self.permutations@ }
    }
}

impl Noise {
    /// The offsets are 53-bit numerators and the table is a permutation.
    pub open spec fn wf(&self) -> bool {
        &&& self.x0 < pow2(53)
        &&& self.y0 < pow2(53)
        &&& self.z0 < pow2(53)
        &&& is_permutation(self.permutations@)
    }

    /// The kernel with the given offset numerators whose table is the
    /// shuffle that `draws` drives.
    pub fn from_draws(x0: u64, y0: u64, z0: u64, draws: &Vec<i32>) -> (r: Noise)
        requires
            valid_draws(draws@),
        ensures
            r.x0 == x0,
            r.y0 == y0,
            r.z0 == z0,
            r.permutations@ == shuffled(draws@, 256),
            is_permutation(r.permutations@),
    {
        let mut permutations: Vec<u8> = Vec::new();
        let mut v: usize = 0;
        while v < 256
            invariant
                v <= 256,
                permutations@.len() == v,
                forall|i: int| 0 <= i < v ==> permutations@[i] == i,
            decreases 256 - v,
        {
            permutations.push(v as u8);
            v = v + 1;
        }
        assert(permutations@ =~= shuffled(draws@, 0));
        let mut index: usize = 0;
        while index < 256
            invariant
                index <= 256,
                valid_draws(draws@),
                permutations@ == shuffled(draws@, index as nat),
            decreases 256 - index,
        {
            proof {
                lemma_shuffle_is_permutation(draws@, index as nat);
                assert(0 <= draws@[index as int] < 256 - index);
            }
            let j = draws[index] as usize + index;
            let temp = permutations[j];
            let at_index = permutations[index];
            permutations.set(j, at_index);
            permutations.set(index, temp);
            index = index + 1;
        }
        proof {
            lemma_shuffle_is_permutation(draws@, 256);
        }
        Noise { x0, y0, z0, permutations }
    }

    /// Draws the three offsets, then one index for each entry of the table
    /// in increasing order, entry `k` drawing in `0..256 - k`, and shuffles
    /// the identity table with those draws.
    pub fn new(random: &mut JavaRandom) -> (r: Noise)
        ensures
            (r@, final(random).state()) == kernel_spec(old(random).state()),
            r.wf(),
    {
        let x0 = random.next_double_bits();
        let y0 = random.next_double_bits();
        let z0 = random.next_double_bits();
        let ghost s3 = random.state();
        let mut draws: Vec<i32> = Vec::new();
        let mut index: usize = 0;
        while index < 256
            invariant
                index <= 256,
                draws@.len() == index,
                forall|k: int| 0 <= k < index ==> 0 <= #[trigger] draws@[k] < 256 - k,
                (draws@, random.state()) == shuffle_draws(s3, index as nat),
            decreases 256 - index,
        {
            let draw = random.next_int_n((256 - index) as i32);
            draws.push(draw);
            index = index + 1;
        }
        let r = Noise::from_draws(x0, y0, z0, &draws);
        assert(r@ == kernel_spec(old(random).state()).0);
        r
    }

    /// A copy of this kernel.
    pub fn copy(&self) -> (r: Noise)
        ensures
            r.x0 == self.x0,
            r.y0 == self.y0,
            r.z0 == self.z0,
            r.permutations@ == self.permutations@,
    {
        Noise { x0: self.x0, y0: self.y0, z0: self.z0, permutations: self.permutations.clone() }
    }

    /// The table entry at the low eight bits of `index`.
    pub fn lookup(&self, index: i32) -> (r: u8)
        requires
            self.wf(),
        ensures
            r == self.permutations@[low_byte(index)],
    {
        assert(0 <= index & 255 <= 255) by (bit_vector);
        self.permutations[(index & 255) as usize]
    }

    fn perm(&self, i: usize) -> (r: usize)
        requires
            self.wf(),
        ensures
            r == perm_at(self.permutations@, i as int),
            r < 256,
    {
        self.permutations[i % 256] as usize
    }

    /// The hash bytes of the eight corners of the lattice cell at
    /// `(x, y, z)`, corner `c` being offset by `(c & 1, (c >> 1) & 1, c >> 2)`.
    pub fn corner_hashes(&self, x: i32, y: i32, z: i32) -> (r: Vec<u8>)
        requires
            self.wf(),
        ensures
            r@ == corner_hashes_spec(self.permutations@, x, y, z),
    {
        assert(0 <= x & 255 <= 255) by (bit_vector);
        assert(0 <= y & 255 <= 255) by (bit_vector);
        assert(0 <= z & 255 <= 255) by (bit_vector);
        let bx = (x & 255) as usize;
        let by = (y & 255) as usize;
        let bz = (z & 255) as usize;
        let a0 = self.perm(bx) + by;
        let a1 = self.perm(bx + 1) + by;
        let b00 = self.perm(a0) + bz;
        let b10 = self.perm(a1) + bz;
        let b01 = self.perm(a0 + 1) + bz;
        let b11 = self.perm(a1 + 1) + bz;
        let r = vec![
            self.perm(b00) as u8,
            self.perm(b10) as u8,
            self.perm(b01) as u8,
            self.perm(b11) as u8,
            self.perm(b00 + 1) as u8,
            self.perm(b10 + 1) as u8,
            self.perm(b01 + 1) as u8,
            self.perm(b11 + 1) as u8,
        ];
        assert(r@ =~= corner_hashes_spec(self.permutations@, x, y, z));
        r
    }
}

} // verus!
