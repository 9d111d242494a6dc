//! The lattice of Perlin noise: random gradients and three shuffled tables
//! that pick a gradient for each lattice point.
use vstd::prelude::*;
use vstd::seq_lib::group_to_multiset_ensures;
use crate::oracle::accepts_all;
use crate::oracle::answers;
use crate::rng::fraction;
use crate::rng::INT_LIMIT;
use crate::rng::Rng;
use crate::rng::scaled;
use crate::rng::xorshift;
use crate::vec3::Vec3;

verus! {

/// The number of gradients, and the length of each table.
pub const POINT_COUNT: usize = 256;

/// The seed from which the lattice is drawn.
pub const LATTICE_SEED: u32 = 1234;

/// The numbers `0, 1, .., n - 1` in their order.
pub open spec fn identity_table(n: nat) -> Seq<usize> {
    Seq::new(n, |i: int| i as usize)
}

/// A table with two of its entries exchanged.
pub open spec fn swapped(p: Seq<usize>, i: int, j: int) -> Seq<usize> {
    p.update(i, p[j]).update(j, p[i])
}

/// The first `n` entries of a table after shuffling, and the generator state
/// after it: from the last of them down, each entry is exchanged with one
/// drawn from those at or before it.
pub open spec fn shuffled(p: Seq<usize>, n: nat, state: u32) -> (Seq<usize>, u32)
    decreases n,
{
    if n == 0 {
        (p, state)
    } else {
        let i = n - 1;
        let drawn = xorshift(state);
        let target = scaled(fraction(drawn), 0, i as i64);
        shuffled(swapped(p, i, target), i as nat, drawn)
    }
}

/// The first `n` vectors that `unit_vector` draws in a row, and the generator
/// after them.
pub open spec fn drawn_vectors(unit_vector: spec_fn(Rng) -> (Vec3, Rng), rng: Rng, n: nat) -> (
    Seq<Vec3>,
    Rng,
)
    decreases n,
{
    if n == 0 {
        (Seq::empty(), rng)
    } else {
        let (before, then) = drawn_vectors(unit_vector, rng, (n - 1) as nat);
        let (v, after) = unit_vector(then);
        (before.push(v), after)
    }
}

/// The place of a lattice coordinate in a table: the coordinate modulo the
/// length of the table.
pub open spec fn wrapped(i: int) -> int {
    i % (POINT_COUNT as int)
}

/// The lattice of Perlin noise.
#[derive(Debug)]
pub struct Perlin {
    pub ranvec: Vec<Vec3>,
    pub perm_x: Vec<usize>,
    pub perm_y: Vec<usize>,
    pub perm_z: Vec<usize>,
}

/// Whether a table has the full length and holds only places in a table.
pub open spec fn is_table(p: Seq<usize>) -> bool {
    p.len() == POINT_COUNT && forall|i: int| 0 <= i < p.len() ==> (#[trigger] p[i]) < POINT_COUNT
}

/// Shuffling rearranges a table: every entry is kept, as often as it was
/// there.
pub proof fn lemma_shuffle_rearranges(p: Seq<usize>, n: nat, state: u32)
    requires
        n <= p.len(),
        n <= INT_LIMIT,
    ensures
        shuffled(p, n, state).0.to_multiset() == p.to_multiset(),
        shuffled(p, n, state).0.len() == p.len(),
    decreases n,
{
    if n > 0 {
        let i = n - 1;
        let drawn = xorshift(state);
        let target = scaled(fraction(drawn), 0, i as i64);
        lemma_draw_in_range(drawn, i as i64);
        let q = swapped(p, i, target);
        assert(q.to_multiset() == p.to_multiset()) by {
            broadcast use group_to_multiset_ensures;

            let mid = p.update(i, p[target]);
            assert(mid.to_multiset() =~= p.to_multiset().remove(p[i]).insert(p[target]));
            assert(q.to_multiset() =~= mid.to_multiset().remove(mid[target]).insert(p[i]));
            if i == target {
                assert(q =~= p);
            } else {
                assert(mid[target] == p[target]);
                assert(q.to_multiset() =~= p.to_multiset());
            }
        }
        lemma_shuffle_rearranges(q, i as nat, drawn);
    }
}

/// A draw from `0..=max` lies in that range.
pub proof fn lemma_draw_in_range(state: u32, max: i64)
    requires
        0 <= max < INT_LIMIT,
    ensures
        0 <= scaled(fraction(state), 0, max) <= max,
{
    let f = fraction(state);
    assert(f < 0x80_0000) by (bit_vector)
        requires
            f == state & 0x007F_FFFF,
    ;
    let width = max + 1;
    assert(0 <= width * f < width * 0x80_0000) by (nonlinear_arith)
        requires
            0 < width,
            0 <= f < 0x80_0000,
    ;
}

impl Perlin {
    /// Whether the lattice is complete: as many gradients as points, and
    /// three tables.
    pub open spec fn wf(&self) -> bool {
        &&& self.ranvec@.len() == POINT_COUNT
        &&& is_table(self.perm_x@)
        &&& is_table(self.perm_y@)
        &&& is_table(self.perm_z@)
    }

    /// The gradient at the lattice point `(i, j, k)`: the one whose number is
    /// the exclusive or of the three table entries at the point's wrapped
    /// coordinates.
    pub open spec fn spec_corner(&self, i: i64, j: i64, k: i64) -> Vec3 {
        self.ranvec@[(self.perm_x@[wrapped(i as int)] ^ self.perm_y@[wrapped(j as int)]
            ^ self.perm_z@[wrapped(k as int)]) as int]
    }

    /// Shuffles the first `n` entries of a table.
    pub fn permute(p: &mut Vec<usize>, n: usize, rng: &mut Rng)
        requires
            n <= old(p)@.len(),
            n <= INT_LIMIT,
        ensures
            (final(p)@, final(rng).state()) == shuffled(old(p)@, n as nat, old(rng).state()),
            final(p)@.to_multiset() == old(p)@.to_multiset(),
            final(p)@.len() == old(p)@.len(),
    {
        let mut i = n;
        while i > 0
            invariant
                i <= n,
                n <= p@.len(),
                n <= INT_LIMIT,
                p@.len() == old(p)@.len(),
                shuffled(p@, i as nat, rng.state()) == shuffled(old(p)@, n as nat, old(rng).state()),
            decreases i,
        {
            i -= 1;
            let target = rng.int_between(0, i as i64) as usize;
            let tmp = p[i];
            let other = p[target];
            p.set(i, other);
            p.set(target, tmp);
        }
        proof {
            lemma_shuffle_rearranges(old(p)@, n as nat, old(rng).state());
        }
    }

    /// A shuffled table of the numbers below the point count.
    pub fn generate_perm(rng: &mut Rng) -> (p: Vec<usize>)
        ensures
            (p@, final(rng).state()) == shuffled(
                identity_table(POINT_COUNT as nat),
                POINT_COUNT as nat,
                old(rng).state(),
            ),
            is_table(p@),
    {
        let mut p: Vec<usize> = Vec::new();
        let mut i: usize = 0;
        while i < POINT_COUNT
            invariant
                i <= POINT_COUNT,
                p@.len() == i,
                forall|k: int| 0 <= k < i ==> p@[k] == k,
            decreases POINT_COUNT - i,
        {
            p.push(i);
            i += 1;
        }
        let ghost start = p@;
        proof {
            assert(start =~= identity_table(POINT_COUNT as nat));
        }
        Self::permute(&mut p, POINT_COUNT, rng);
        proof {
            broadcast use group_to_multiset_ensures;

            assert forall|k: int| 0 <= k < p@.len() implies (#[trigger] p@[k]) < POINT_COUNT by {
                assert(p@.contains(p@[k]));
                assert(p@.to_multiset().count(p@[k]) > 0);
                assert(start.contains(p@[k]));
                let j = choose|j: int| 0 <= j < start.len() && start[j] == p@[k];
            }
        }
        p
    }

    /// Draws the lattice from its seed: the gradients first, one call of
    /// `unit_vector` each, then the three tables.
    pub fn new<U: Fn(Rng) -> (Vec3, Rng)>(unit_vector: &U) -> (r: Perlin)
        requires
            accepts_all(*unit_vector),
        ensures
            r.wf(),
            forall|u: spec_fn(Rng) -> (Vec3, Rng)|
                answers(*unit_vector, u) ==> {
                    let (vectors, rng) = #[trigger] drawn_vectors(
                        u,
                        Rng::seeded(LATTICE_SEED),
                        POINT_COUNT as nat,
                    );
                    let start = identity_table(POINT_COUNT as nat);
                    let (px, sx) = shuffled(start, POINT_COUNT as nat, rng.state());
                    let (py, sy) = shuffled(start, POINT_COUNT as nat, sx);
                    let (pz, sz) = shuffled(start, POINT_COUNT as nat, sy);
                    r.ranvec@ == vectors && r.perm_x@ == px && r.perm_y@ == py && r.perm_z@ == pz
                },
    {
        let mut rng = Rng::new(LATTICE_SEED);
        let mut ranvec: Vec<Vec3> = Vec::new();
        let mut i: usize = 0;
        while i < POINT_COUNT
            invariant
                i <= POINT_COUNT,
                ranvec@.len() == i,
                accepts_all(*unit_vector),
                forall|u: spec_fn(Rng) -> (Vec3, Rng)|
                    answers(*unit_vector, u) ==> (ranvec@, rng) == #[trigger] drawn_vectors(
                        u,
                        Rng::seeded(LATTICE_SEED),
                        i as nat,
                    ),
            decreases POINT_COUNT - i,
        {
            let ghost before = (ranvec@, rng);
            let drawn = unit_vector(rng);
            let (v, next) = drawn;
            ranvec.push(v);
            proof {
                assert forall|u: spec_fn(Rng) -> (Vec3, Rng)| answers(*unit_vector, u) implies (
                    ranvec@,
                    next,
                ) == #[trigger] drawn_vectors(u, Rng::seeded(LATTICE_SEED), (i + 1) as nat) by {
                    assert(call_ensures(*unit_vector, (rng,), drawn));
                    assert(before == drawn_vectors(u, Rng::seeded(LATTICE_SEED), i as nat));
                }
            }
            rng = next;
            i += 1;
        }
        let perm_x = Self::generate_perm(&mut rng);
        let perm_y = Self::generate_perm(&mut rng);
        let perm_z = Self::generate_perm(&mut rng);
        Perlin { ranvec, perm_x, perm_y, perm_z }
    }

    /// The gradient at a lattice point.
    pub fn corner(&self, i: i64, j: i64, k: i64) -> (g: Vec3)
        requires
            self.wf(),
        ensures
            g == self.spec_corner(i, j, k),
    {
        let a = self.perm_x[Self::wrap(i)];
        let b = self.perm_y[Self::wrap(j)];
        let c = self.perm_z[Self::wrap(k)];
        assert(a ^ b ^ c < 256) by (bit_vector)
            requires
                a < 256,
                b < 256,
                c < 256,
        ;
        self.ranvec[a ^ b ^ c]
    }

    /// The gradients at the eight corners of the lattice cell whose least
    /// corner is `(i, j, k)`; the gradient at `(i + di, j + dj, k + dk)`
    /// stands at `[di][dj][dk]`.
    pub fn corners(&self, i: i64, j: i64, k: i64) -> (c: [[[Vec3; 2]; 2]; 2])
        requires
            self.wf(),
            i < i64::MAX,
            j < i64::MAX,
            k < i64::MAX,
        ensures
            forall|di: int, dj: int, dk: int|
                0 <= di < 2 && 0 <= dj < 2 && 0 <= dk < 2 ==> #[trigger] c[di][dj][dk]
                    == self.spec_corner((i + di) as i64, (j + dj) as i64, (k + dk) as i64),
    {
        [
            [
                [self.corner(i, j, k), self.corner(i, j, k + 1)],
                [self.corner(i, j + 1, k), self.corner(i, j + 1, k + 1)],
            ],
            [
                [self.corner(i + 1, j, k), self.corner(i + 1, j, k + 1)],
                [self.corner(i + 1, j + 1, k), self.corner(i + 1, j + 1, k + 1)],
            ],
        ]
    }

    /// The place of a lattice coordinate in a table.
    pub fn wrap(i: i64) -> (w: usize)
        ensures
            w == wrapped(i as int),
            w < POINT_COUNT,
    {
        let r: i64 = i % 256;
        let shifted: i64 = if r < 0 {
            r + 256
        } else {
            r
        };
        shifted as usize
    }
}

} // verus!
