//! The lattice of a gradient noise: random permutations that spread a fixed
//! set of gradients over the cells of space.
use rand::seq::SliceRandom;
use vstd::prelude::*;
use crate::vec::Vec3;

verus! {

/// The number of gradients, and the length of each permutation.
pub const POINT_COUNT: usize = 256;

/// The numbers from zero up to `n`, in order.
pub open spec fn counting(n: nat) -> Seq<usize> {
    Seq::new(n, |i: int| i as usize)
}

/// Whether `table` holds each number below [`POINT_COUNT`] once.
pub open spec fn is_permutation(table: Seq<usize>) -> bool {
    table.to_multiset() == counting(POINT_COUNT as nat).to_multiset()
}

/// The gradient that the cell with lattice coordinates (`x`, `y`, `z`) gets:
/// the entries of the three tables at the low eight bits of the coordinates,
/// combined bit by bit with exclusive or.
pub open spec fn lattice_index(
    tables: (Seq<usize>, Seq<usize>, Seq<usize>),
    x: i64,
    y: i64,
    z: i64,
) -> usize {
    tables.0[(x & 255) as int] ^ tables.1[(y & 255) as int] ^ tables.2[(z & 255) as int]
}

/// Shuffles a table with `shuffle` of rand's slices and the generator of
/// `rand::thread_rng`. The function swaps items of the slice, so the table
/// afterwards holds what it held before; in which order is left open.
#[verifier::external_body]
fn shuffle(table: &mut Vec<usize>)
    ensures
        final(table)@.to_multiset() == old(table)@.to_multiset(),
{
    table.shuffle(&mut rand::thread_rng());
}

/// A permutation has [`POINT_COUNT`] entries, each below [`POINT_COUNT`].
pub proof fn lemma_permutation_entries(table: Seq<usize>)
    requires
        is_permutation(table),
    ensures
        table.len() == POINT_COUNT,
        forall|i: int| 0 <= i < table.len() ==> #[trigger] table[i] < POINT_COUNT,
{
    let plain = counting(POINT_COUNT as nat);
    vstd::seq_lib::to_multiset_len(table);
    vstd::seq_lib::to_multiset_len(plain);
    assert forall|i: int| 0 <= i < table.len() implies #[trigger] table[i] < POINT_COUNT by {
        vstd::seq_lib::to_multiset_contains(table, table[i]);
        vstd::seq_lib::to_multiset_contains(plain, table[i]);
        assert(table.contains(table[i]));
        let at = choose|at: int| 0 <= at < plain.len() && plain[at] == table[i];
    }
}

/// The lattice of a gradient noise.
pub struct PerlinNoise {
    points: Vec<Vec3>,
    permutations: (Vec<usize>, Vec<usize>, Vec<usize>),
}

impl PerlinNoise {
    /// The gradients.
    pub closed spec fn points(&self) -> Seq<Vec3> {
        self.points@
    }

    /// The three permutations, one per axis.
    pub closed spec fn tables(&self) -> (Seq<usize>, Seq<usize>, Seq<usize>) {
        (self.permutations.0@, self.permutations.1@, self.permutations.2@)
    }

    /// What holds of every lattice: it has [`POINT_COUNT`] gradients, and
    /// each of its tables is a permutation.
    pub open spec fn wf(&self) -> bool {
        &&& self.points().len() == POINT_COUNT
        &&& is_permutation(self.tables().0)
        &&& is_permutation(self.tables().1)
        &&& is_permutation(self.tables().2)
    }

    #[verifier::type_invariant]
    closed spec fn inv(&self) -> bool {
        self.wf()
    }

    /// A random permutation of the numbers below [`POINT_COUNT`].
    fn table() -> (r: Vec<usize>)
        ensures
            is_permutation(r@),
    {
        let mut r: Vec<usize> = Vec::new();
        let mut i: usize = 0;
        while i < POINT_COUNT
            invariant
                i <= POINT_COUNT,
                r@ == counting(i as nat),
            decreases POINT_COUNT - i,
        {
            r.push(i);
            assert(r@ =~= counting((i + 1) as nat));
            i = i + 1;
        }
        shuffle(&mut r);
        r
    }

    /// The lattice over the gradients `points`, with three permutations
    /// drawn at random. There must be [`POINT_COUNT`] gradients; with any
    /// other number there is no lattice.
    pub fn new(points: Vec<Vec3>) -> (r: Option<Self>)
        ensures
            points@.len() == POINT_COUNT <==> r is Some,
            r matches Some(noise) ==> noise.wf() && noise.points() == points@,
    {
        if points.len() != POINT_COUNT {
            return None;
        }
        let first = Self::table();
        let second = Self::table();
        let third = Self::table();
        Some(PerlinNoise { points, permutations: (first, second, third) })
    }

    /// The gradient of the cell with lattice coordinates (`x`, `y`, `z`);
    /// see [`lattice_index`].
    pub fn gradient(&self, x: i64, y: i64, z: i64) -> (r: Vec3)
        ensures
            lattice_index(self.tables(), x, y, z) < POINT_COUNT,
            r == self.points()[lattice_index(self.tables(), x, y, z) as int],
    {
        proof {
            use_type_invariant(self);
            lemma_permutation_entries(self.permutations.0@);
            lemma_permutation_entries(self.permutations.1@);
            lemma_permutation_entries(self.permutations.2@);
        }
        assert(0 <= x & 255 <= 255) by (bit_vector);
        assert(0 <= y & 255 <= 255) by (bit_vector);
        assert(0 <= z & 255 <= 255) by (bit_vector);
        let a: usize = self.permutations.0[(x & 255) as usize];
        let b: usize = self.permutations.1[(y & 255) as usize];
        let c: usize = self.permutations.2[(z & 255) as usize];
        assert(a ^ b ^ c < 256) by (bit_vector)
            requires
                a < 256,
                b < 256,
                c < 256,
        ;
        self.points[a ^ b ^ c]
    }
}

} // verus!
