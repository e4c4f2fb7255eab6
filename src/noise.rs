//! Seeded permutation and gradient tables for 2D gradient noise.
//!
//! The tables follow the classic improved-noise layout: a permutation of
//! 0..256 mixed with the seed, stored twice so that lookups of `i + 1` need
//! no wrap-around, and for each entry one of twelve gradient directions.
use vstd::prelude::*;

verus! {

/// The reference permutation of 0..256.
pub const PERMUTATION: [u32; 256] = [
    151, 160, 137, 91, 90, 15, 131, 13, 201, 95, 96, 53, 194, 233, 7, 225,
    140, 36, 103, 30, 69, 142, 8, 99, 37, 240, 21, 10, 23, 190, 6, 148,
    247, 120, 234, 75, 0, 26, 197, 62, 94, 252, 219, 203, 117, 35, 11, 32,
    57, 177, 33, 88, 237, 149, 56, 87, 174, 20, 125, 136, 171, 168, 68, 175,
    74, 165, 71, 134, 139, 48, 27, 166, 77, 146, 158, 231, 83, 111, 229, 122,
    60, 211, 133, 230, 220, 105, 92, 41, 55, 46, 245, 40, 244, 102, 143, 54,
    65, 25, 63, 161, 1, 216, 80, 73, 209, 76, 132, 187, 208, 89, 18, 169,
    200, 196, 135, 130, 116, 188, 159, 86, 164, 100, 109, 198, 173, 186, 3, 64,
    52, 217, 226, 250, 124, 123, 5, 202, 38, 147, 118, 126, 255, 82, 85, 212,
    207, 206, 59, 227, 47, 16, 58, 17, 182, 189, 28, 42, 223, 183, 170, 213,
    119, 248, 152, 2, 44, 154, 163, 70, 221, 153, 101, 155, 167, 43, 172, 9,
    129, 22, 39, 253, 19, 98, 108, 110, 79, 113, 224, 232, 178, 185, 112, 104,
    218, 246, 97, 228, 251, 34, 242, 193, 238, 210, 144, 12, 191, 179, 162, 241,
    81, 51, 145, 235, 249, 14, 239, 107, 49, 192, 214, 31, 181, 199, 106, 157,
    184, 84, 204, 176, 115, 121, 50, 45, 127, 4, 150, 254, 138, 236, 205, 93,
    222, 114, 67, 29, 24, 72, 243, 141, 128, 195, 78, 66, 215, 61, 156, 180,
];

/// The twelve gradient directions, edges of a cube.
pub const GRADIENTS: [(i32, i32, i32); 12] = [
    (1, 1, 0),
    (-1, 1, 0),
    (1, -1, 0),
    (-1, -1, 0),
    (1, 0, 1),
    (-1, 0, 1),
    (1, 0, -1),
    (-1, 0, -1),
    (0, 1, 1),
    (0, -1, 1),
    (0, 1, -1),
    (0, -1, -1),
];

/// The seed as the tables use it: a seed below 256 has its low byte
/// repeated in the next byte.
pub open spec fn mixed_seed(seed: i32) -> u32 {
    let s = seed as u32;
    if seed < 256 {
        s | (s << 8u32)
    } else {
        s
    }
}

/// The byte of the mixed seed that entry `i` of the permutation is combined
/// with: the low byte for odd entries, the next one for even entries.
pub open spec fn seed_byte(seed: i32, i: int) -> u32 {
    if i % 2 == 1 {
        mixed_seed(seed) & 255
    } else {
        (mixed_seed(seed) >> 8u32) & 255
    }
}

/// Entry `i` (below 256) of the seeded permutation.
pub open spec fn perm_value(seed: i32, i: int) -> u32 {
    PERMUTATION[i] ^ seed_byte(seed, i)
}

/// The gradient of entry `i` (below 256) of the seeded tables.
pub open spec fn gradient_value(seed: i32, i: int) -> (i32, i32, i32) {
    GRADIENTS[(perm_value(seed, i) % 12) as int]
}

/// Both tables hold, at `i` and at `i + 256`, the values of entry `i` for
/// `seed`.
pub open spec fn seeded_tables(perm: Seq<usize>, grad: Seq<(i32, i32, i32)>, seed: i32) -> bool {
    &&& perm.len() == 512
    &&& grad.len() == 512
    &&& forall|i: int|
        0 <= i < 256 ==> #[trigger] perm[i] == perm_value(seed, i) as usize && perm[i + 256]
            == perm_value(seed, i) as usize
    &&& forall|i: int|
        0 <= i < 256 ==> #[trigger] grad[i] == gradient_value(seed, i) && grad[i + 256]
            == gradient_value(seed, i)
}

fn perm_entry(seed: i32, i: usize) -> (r: u32)
    requires
        i < 256,
    ensures
        r == perm_value(seed, i as int),
{
    let s = seed as u32;
    let mixed = if seed < 256 {
        s | (s << 8u32)
    } else {
        s
    };
    let byte = if i % 2 == 1 {
        mixed & 255
    } else {
        (mixed >> 8u32) & 255
    };
    PERMUTATION[i] ^ byte
}

fn gradient_entry(v: u32) -> (r: (i32, i32, i32))
    ensures
        r == GRADIENTS[(v % 12) as int],
{
    GRADIENTS[(v % 12) as usize]
}

fn seeded(seed: i32) -> (r: (Vec<usize>, Vec<(i32, i32, i32)>))
    ensures
        seeded_tables(r.0@, r.1@, seed),
{
    let mut perm: Vec<usize> = Vec::new();
    let mut grad: Vec<(i32, i32, i32)> = Vec::new();
    let mut i: usize = 0;
    while i < 256
        invariant
            i <= 256,
            perm@.len() == i,
            grad@.len() == i,
            forall|k: int| 0 <= k < i ==> #[trigger] perm@[k] == perm_value(seed, k) as usize,
            forall|k: int| 0 <= k < i ==> #[trigger] grad@[k] == gradient_value(seed, k),
        decreases 256 - i,
    {
        let v = perm_entry(seed, i);
        perm.push(v as usize);
        grad.push(gradient_entry(v));
        i += 1;
    }
    let mut j: usize = 0;
    while j < 256
        invariant
            j <= 256,
            perm@.len() == 256 + j,
            grad@.len() == 256 + j,
            forall|k: int| 0 <= k < 256 ==> #[trigger] perm@[k] == perm_value(seed, k) as usize,
            forall|k: int| 0 <= k < 256 ==> #[trigger] grad@[k] == gradient_value(seed, k),
            forall|k: int|
                0 <= k < j ==> #[trigger] perm@[k + 256] == perm_value(seed, k) as usize,
            forall|k: int| 0 <= k < j ==> #[trigger] grad@[k + 256] == gradient_value(seed, k),
        decreases 256 - j,
    {
        let p = perm[j];
        perm.push(p);
        let g = grad[j];
        grad.push(g);
        j += 1;
    }
    (perm, grad)
}

/// Permutation and gradient tables of seeded 2D gradient noise.
pub struct NoiseGenerator {
    grad_p: Vec<(i32, i32, i32)>,
    perm: Vec<usize>,
}

impl NoiseGenerator {
    #[verifier::type_invariant]
    spec fn inv(&self) -> bool {
        self.perm@.len() == 512 && self.grad_p@.len() == 512
    }

    /// The permutation table, 512 entries.
    pub closed spec fn perm_view(&self) -> Seq<usize> {
        self.perm@
    }

    /// The gradient table, 512 entries.
    pub closed spec fn grad_view(&self) -> Seq<(i32, i32, i32)> {
        self.grad_p@
    }

    /// The tables for `seed`.
    pub fn new(seed: i32) -> (r: NoiseGenerator)
        ensures
            seeded_tables(r.perm_view(), r.grad_view(), seed),
    {
        let (perm, grad_p) = seeded(seed);
        NoiseGenerator { grad_p, perm }
    }

    /// Replaces the tables by those for `seed`.
    pub fn seed(&mut self, seed: i32)
        ensures
            seeded_tables(final(self).perm_view(), final(self).grad_view(), seed),
    {
        let (perm, grad_p) = seeded(seed);
        *self = NoiseGenerator { grad_p, perm };
    }

    /// Entry `i` of the permutation table.
    pub fn perm(&self, i: usize) -> (r: usize)
        requires
            i < 512,
        ensures
            r == self.perm_view()[i as int],
    {
        proof {
            use_type_invariant(self);
        }
        self.perm[i]
    }

    /// Entry `i` of the gradient table.
    pub fn gradient(&self, i: usize) -> (r: (i32, i32, i32))
        requires
            i < 512,
        ensures
            r == self.grad_view()[i as int],
    {
        proof {
            use_type_invariant(self);
        }
        self.grad_p[i]
    }
}

} // verus!
