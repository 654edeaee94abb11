//! Lattice noise: random numbers at the points of a lattice, shuffled by
//! three permutations, and blended between the points.

use crate::scalar::{draws, saturated, Arithmetic, Chance, Scalar};
use crate::vector::Point3;
use vstd::prelude::*;

verus! {

/// The number of lattice values, and the length of each permutation.
pub const POINT_COUNT: usize = 256;

/// The random numbers of the lattice and the three permutations that say
/// which of them belongs to a lattice point.
pub struct Perlin {
    rand_floats: Vec<Scalar>,
    perm_x: Vec<usize>,
    perm_y: Vec<usize>,
    perm_z: Vec<usize>,
}

/// `p` holds each number below its length once.
pub open spec fn is_permutation(p: Seq<usize>) -> bool {
    &&& forall|i: int| 0 <= i < p.len() ==> #[trigger] p[i] < p.len()
    &&& forall|i: int, j: int| 0 <= i < j < p.len() ==> #[trigger] p[i] != #[trigger] p[j]
}

/// The index below 256 that a lattice coordinate stands for: its remainder
/// by 256, counted from below for a negative one.
pub open spec fn wrapped(coordinate: int) -> int {
    coordinate % 256
}

/// The smooth step of `u`: `u * u * (3 - 2 * u)`.
pub open spec fn fade<A: Arithmetic>(u: Scalar, fpu: &A) -> Scalar {
    fpu.product(
        fpu.product(u, u),
        fpu.difference(
            Scalar { bits: 0x4008_0000_0000_0000 },
            fpu.product(Scalar { bits: 0x4000_0000_0000_0000 }, u),
        ),
    )
}

/// The weight of a corner along one axis: the smooth step for the far
/// corner, and one minus it for the near corner.
pub open spec fn weight<A: Arithmetic>(far: bool, step: Scalar, fpu: &A) -> Scalar {
    if far {
        step
    } else {
        fpu.difference(Scalar { bits: 0x3FF0_0000_0000_0000 }, step)
    }
}

/// The sum of the first `n` corners of a cell, each weighted by how near
/// the point is to it. The corners are counted with the third coordinate
/// running fastest.
pub open spec fn blended<A: Arithmetic>(c: Seq<Scalar>, uu: Scalar, vv: Scalar, ww: Scalar, n: int, fpu: &A) -> Scalar
    decreases n,
{
    if n <= 0 {
        Scalar { bits: 0 }
    } else {
        let at = n - 1;
        let term = fpu.product(
            fpu.product(
                fpu.product(weight(at / 4 == 1, uu, fpu), weight((at / 2) % 2 == 1, vv, fpu)),
                weight(at % 2 == 1, ww, fpu),
            ),
            c[at],
        );
        fpu.sum(blended(c, uu, vv, ww, at, fpu), term)
    }
}

/// `rand::random_range` on a range of `usize`: some number from `low` up to,
/// but not including, `high`.
#[verifier::external_body]
fn random_index(low: usize, high: usize) -> (r: usize)
    requires
        low < high,
    ensures
        low <= r < high,
{
    rand::random_range(low..high)
}

impl Perlin {
    /// There are 256 lattice values, and each permutation is one of the
    /// numbers below 256.
    #[verifier::type_invariant]
    spec fn wf(&self) -> bool {
        &&& self.rand_floats@.len() == POINT_COUNT
        &&& self.perm_x@.len() == POINT_COUNT
        &&& self.perm_y@.len() == POINT_COUNT
        &&& self.perm_z@.len() == POINT_COUNT
        &&& is_permutation(self.perm_x@)
        &&& is_permutation(self.perm_y@)
        &&& is_permutation(self.perm_z@)
    }

    /// The lattice values.
    pub closed spec fn floats(&self) -> Seq<Scalar> {
        self.rand_floats@
    }

    /// The permutation for an axis: 0 for x, 1 for y, any other for z.
    pub closed spec fn perm(&self, axis: int) -> Seq<usize> {
        if axis == 0 {
            self.perm_x@
        } else if axis == 1 {
            self.perm_y@
        } else {
            self.perm_z@
        }
    }

    /// Which lattice value belongs to the lattice point `(i, j, k)`.
    pub open spec fn lattice_index(&self, i: int, j: int, k: int) -> int {
        (self.perm(0)[wrapped(i)] + self.perm(1)[wrapped(j)] + self.perm(2)[wrapped(k)]) % 256
    }

    /// The lattice values at the eight corners of the cell whose near corner
    /// is `(i, j, k)`, with the third coordinate running fastest.
    pub open spec fn corners(&self, i: int, j: int, k: int) -> Seq<Scalar> {
        Seq::new(8, |n: int| self.floats()[self.lattice_index(i + n / 4, j + (n / 2) % 2, k + n % 2)])
    }

    /// The noise in the cell with the near corner `(i, j, k)`, at the
    /// fractions `(u, v, w)` of the way to the far corner.
    pub open spec fn in_cell<A: Arithmetic>(&self, i: int, j: int, k: int, u: Scalar, v: Scalar, w: Scalar, fpu: &A) -> Scalar {
        blended(self.corners(i, j, k), fade(u, fpu), fade(v, fpu), fade(w, fpu), 8, fpu)
    }

    /// The noise at the point `p`: that in the cell in which `p` lies, at
    /// the place of `p` in the cell.
    pub open spec fn at<A: Arithmetic>(&self, p: Point3, fpu: &A) -> Scalar {
        self.in_cell(
            saturated(p.x.floored().truncation()),
            saturated(p.y.floored().truncation()),
            saturated(p.z.floored().truncation()),
            fpu.difference(p.x, p.x.floored()),
            fpu.difference(p.y, p.y.floored()),
            fpu.difference(p.z, p.z.floored()),
            fpu,
        )
    }

    /// The permutation for the x axis.
    pub fn perm_x(&self) -> (r: &Vec<usize>)
        ensures
            r@ == self.perm(0),
            r@.len() == POINT_COUNT,
            is_permutation(r@),
    {
        proof {
            use_type_invariant(self);
        }
        &self.perm_x
    }

    /// The permutation for the y axis.
    pub fn perm_y(&self) -> (r: &Vec<usize>)
        ensures
            r@ == self.perm(1),
            r@.len() == POINT_COUNT,
            is_permutation(r@),
    {
        proof {
            use_type_invariant(self);
        }
        &self.perm_y
    }

    /// The permutation for the z axis.
    pub fn perm_z(&self) -> (r: &Vec<usize>)
        ensures
            r@ == self.perm(2),
            r@.len() == POINT_COUNT,
            is_permutation(r@),
    {
        proof {
            use_type_invariant(self);
        }
        &self.perm_z
    }

    /// The noise with random lattice values from -1 up to 1 and three random
    /// permutations.
    pub fn new<A: Chance>(fpu: &A) -> (r: Self)
        ensures
            r.floats().len() == POINT_COUNT,
            forall|i: int|
                0 <= i < POINT_COUNT ==> draws(
                    fpu,
                    Scalar { bits: 0xBFF0_0000_0000_0000 },
                    Scalar { bits: 0x3FF0_0000_0000_0000 },
                    #[trigger] r.floats()[i],
                ),
    {
        let mut rand_floats: Vec<Scalar> = Vec::new();
        let mut i: usize = 0;
        while i < POINT_COUNT
            invariant
                i <= POINT_COUNT,
                rand_floats@.len() == i,
                forall|k: int|
                    0 <= k < i ==> draws(
                        fpu,
                        Scalar { bits: 0xBFF0_0000_0000_0000 },
                        Scalar { bits: 0x3FF0_0000_0000_0000 },
                        #[trigger] rand_floats@[k],
                    ),
            decreases POINT_COUNT - i,
        {
            rand_floats.push(fpu.random_range(Scalar::one().neg(), Scalar::one()));
            i = i + 1;
        }
        let perm_x = Self::generate_perm();
        let perm_y = Self::generate_perm();
        let perm_z = Self::generate_perm();
        Self { rand_floats, perm_x, perm_y, perm_z }
    }

    /// The noise with the given lattice values and three random
    /// permutations. Without 256 lattice values there is none.
    pub fn with_lattice(rand_floats: Vec<Scalar>) -> (r: Option<Self>)
        ensures
            r is Some <==> rand_floats@.len() == POINT_COUNT,
            r matches Some(p) ==> p.floats() == rand_floats@,
    {
        if rand_floats.len() != POINT_COUNT {
            return None;
        }
        let perm_x = Self::generate_perm();
        let perm_y = Self::generate_perm();
        let perm_z = Self::generate_perm();
        Some(Self { rand_floats, perm_x, perm_y, perm_z })
    }

    /// The noise at the point `p`.
    pub fn noise<A: Arithmetic>(&self, p: &Point3, fpu: &A) -> (r: Scalar)
        ensures
            r == self.at(*p, fpu),
    {
        let x = p.x().floor();
        let y = p.y().floor();
        let z = p.z().floor();
        self.noise_in_cell(
            x.to_i32(),
            y.to_i32(),
            z.to_i32(),
            fpu.minus(p.x(), x),
            fpu.minus(p.y(), y),
            fpu.minus(p.z(), z),
            fpu,
        )
    }

    /// The noise at the point that lies in the cell with the near corner
    /// `(i, j, k)`, at the fractions `(u, v, w)` of the way to the far corner:
    /// the lattice values at the eight corners, blended.
    pub fn noise_in_cell<A: Arithmetic>(&self, i: i32, j: i32, k: i32, u: Scalar, v: Scalar, w: Scalar, fpu: &A) -> (r:
        Scalar)
        ensures
            r == self.in_cell(i as int, j as int, k as int, u, v, w, fpu),
    {
        proof {
            use_type_invariant(self);
        }
        let mut c: Vec<Scalar> = Vec::new();
        let mut n: usize = 0;
        while n < 8
            invariant
                self.wf(),
                n <= 8,
                c@.len() == n,
                forall|m: int| 0 <= m < n ==> #[trigger] c@[m] == self.corners(i as int, j as int, k as int)[m],
            decreases 8 - n,
        {
            let di = (n / 4) as i64;
            let dj = ((n / 2) % 2) as i64;
            let dk = (n % 2) as i64;
            let x = Self::wrap(i as i64 + di);
            let y = Self::wrap(j as i64 + dj);
            let z = Self::wrap(k as i64 + dk);
            let idx = (self.perm_x[x] + self.perm_y[y] + self.perm_z[z]) % 256;
            c.push(self.rand_floats[idx]);
            n = n + 1;
        }
        assert(c@ == self.corners(i as int, j as int, k as int));
        Self::trilinear_interp(&c, u, v, w, fpu)
    }

    /// The index below 256 that a lattice coordinate stands for.
    fn wrap(coordinate: i64) -> (r: usize)
        requires
            -0x1_0000_0000 <= coordinate <= 0x1_0000_0000,
        ensures
            r == wrapped(coordinate as int),
            r < 256,
    {
        let m = coordinate % 256;
        if m < 0 {
            (m + 256) as usize
        } else {
            m as usize
        }
    }

    fn trilinear_interp<A: Arithmetic>(c: &Vec<Scalar>, u: Scalar, v: Scalar, w: Scalar, fpu: &A) -> (r:
        Scalar)
        requires
            c@.len() == 8,
        ensures
            r == blended(c@, fade(u, fpu), fade(v, fpu), fade(w, fpu), 8, fpu),
    {
        let three = Scalar::from_bits(0x4008_0000_0000_0000);
        let uu = fpu.times(fpu.times(u, u), fpu.minus(three, fpu.times(Scalar::two(), u)));
        let vv = fpu.times(fpu.times(v, v), fpu.minus(three, fpu.times(Scalar::two(), v)));
        let ww = fpu.times(fpu.times(w, w), fpu.minus(three, fpu.times(Scalar::two(), w)));
        let mut accum = Scalar::zero();
        let mut n: usize = 0;
        while n < 8
            invariant
                n <= 8,
                c@.len() == 8,
                accum == blended(c@, uu, vv, ww, n as int, fpu),
            decreases 8 - n,
        {
            let weight_u = if n / 4 == 1 {
                uu
            } else {
                fpu.minus(Scalar::one(), uu)
            };
            let weight_v = if (n / 2) % 2 == 1 {
                vv
            } else {
                fpu.minus(Scalar::one(), vv)
            };
            let weight_w = if n % 2 == 1 {
                ww
            } else {
                fpu.minus(Scalar::one(), ww)
            };
            accum = fpu.plus(accum, fpu.times(fpu.times(fpu.times(weight_u, weight_v), weight_w), c[n]));
            n = n + 1;
        }
        accum
    }

    /// The numbers below 256 in a random order: what a shuffle makes of them
    /// with the draws that came.
    pub fn generate_perm() -> (p: Vec<usize>)
        ensures
            p@.len() == POINT_COUNT,
            is_permutation(p@),
            exists|targets: Seq<usize>|
                #![trigger shuffled(
                    counted(POINT_COUNT as int),
                    POINT_COUNT as int,
                    steps(POINT_COUNT as int),
                    targets,
                )]
                {
                    &&& in_reach(targets, POINT_COUNT as int)
                    &&& p@ == shuffled(
                        counted(POINT_COUNT as int),
                        POINT_COUNT as int,
                        steps(POINT_COUNT as int),
                        targets,
                    )
                },
    {
        let mut p: Vec<usize> = Vec::new();
        let mut i: usize = 0;
        while i < POINT_COUNT
            invariant
                i <= POINT_COUNT,
                p@.len() == i,
                forall|j: int| 0 <= j < i ==> #[trigger] p@[j] == j,
            decreases POINT_COUNT - i,
        {
            p.push(i);
            i = i + 1;
        }
        assert(p@ =~= counted(POINT_COUNT as int));
        Self::permute(&mut p, POINT_COUNT);
        p
    }

    /// Shuffles the first `n` numbers: from the last down to the second,
    /// each changes places with one that is chosen at random among those
    /// before it and itself; what comes out is what the draws make of them.
    fn permute(p: &mut Vec<usize>, n: usize)
        requires
            n <= old(p)@.len(),
            is_permutation(old(p)@),
        ensures
            final(p)@.len() == old(p)@.len(),
            is_permutation(final(p)@),
            forall|i: int| n <= i < old(p)@.len() ==> final(p)@[i] == old(p)@[i],
            exists|targets: Seq<usize>|
                #![trigger shuffled(old(p)@, n as int, steps(n as int), targets)]
                {
                    &&& in_reach(targets, n as int)
                    &&& final(p)@ == shuffled(old(p)@, n as int, steps(n as int), targets)
                },
    {
        let mut i: usize = n;
        let ghost mut targets: Seq<usize> = Seq::empty();
        while i > 1
            invariant
                i <= n <= p@.len(),
                n >= 1 ==> i >= 1,
                p@.len() == old(p)@.len(),
                is_permutation(p@),
                forall|j: int| n <= j < p@.len() ==> p@[j] == old(p)@[j],
                targets.len() == n - i,
                forall|k: int| 0 <= k < targets.len() ==> #[trigger] targets[k] <= n - 1 - k,
                p@ == shuffled(old(p)@, n as int, n - i, targets),
            decreases i,
        {
            i = i - 1;
            let target = random_index(0, i + 1);
            proof {
                lemma_shuffled_prefix(old(p)@, n as int, (n - i - 1) as int, targets, targets.push(target));
                targets = targets.push(target);
            }
            Self::exchange(p, i, target);
        }
        assert(in_reach(targets, n as int));
        assert(p@ == shuffled(old(p)@, n as int, steps(n as int), targets));
    }

    /// Makes the numbers at the places `i` and `target` change places.
    pub fn exchange(p: &mut Vec<usize>, i: usize, target: usize)
        requires
            i < old(p)@.len(),
            target < old(p)@.len(),
        ensures
            final(p)@ == exchanged(old(p)@, i as int, target as int),
    {
        let a = p[i];
        let b = p[target];
        p.set(i, b);
        p.set(target, a);
    }
}

/// The numbers below `n`, in order.
pub open spec fn counted(n: int) -> Seq<usize> {
    Seq::new(n as nat, |i: int| i as usize)
}

/// The numbers with those at the places `i` and `target` exchanged.
pub open spec fn exchanged(p: Seq<usize>, i: int, target: int) -> Seq<usize> {
    p.update(i, p[target]).update(target, p[i])
}

/// How many numbers change places when the first `n` are shuffled: all but
/// the first.
pub open spec fn steps(n: int) -> int {
    if n >= 1 {
        n - 1
    } else {
        0
    }
}

/// Each draw is a place that the shuffle may choose at its step: the draw
/// of the step `k`, counted from 0, is for the place `n - 1 - k`, and is
/// that place or one before it.
pub open spec fn in_reach(targets: Seq<usize>, n: int) -> bool {
    &&& targets.len() == steps(n)
    &&& forall|k: int| 0 <= k < targets.len() ==> #[trigger] targets[k] <= n - 1 - k
}

/// The first `n` numbers after the first `k` steps of a shuffle with the
/// draws `targets`: at the step `k`, counted from 1, the number at the place
/// `n - k` changes places with the one at the place that was drawn.
pub open spec fn shuffled(p: Seq<usize>, n: int, k: int, targets: Seq<usize>) -> Seq<usize>
    decreases k,
{
    if k <= 0 {
        p
    } else {
        exchanged(shuffled(p, n, k - 1, targets), n - k, targets[k - 1] as int)
    }
}

/// The first steps of a shuffle do not depend on the draws after them.
pub proof fn lemma_shuffled_prefix(p: Seq<usize>, n: int, k: int, a: Seq<usize>, b: Seq<usize>)
    requires
        0 <= k <= a.len(),
        k <= b.len(),
        forall|i: int| 0 <= i < k ==> a[i] == b[i],
    ensures
        shuffled(p, n, k, a) == shuffled(p, n, k, b),
    decreases k,
{
    if k > 0 {
        lemma_shuffled_prefix(p, n, k - 1, a, b);
    }
}

} // verus!
