//! Permutations of `{0, .., n-1}` and their presentation as square 0/1 matrices.
use vstd::prelude::*;

use crate::matrix::Matrix;

verus! {

/// Every entry is below the length and no two entries are equal.
pub open spec fn is_permutation(s: Seq<usize>) -> bool {
    &&& forall|i: int| 0 <= i < s.len() ==> #[trigger] s[i] < s.len()
    &&& forall|i: int, j: int| 0 <= i < s.len() && 0 <= j < s.len() && i != j ==> #[trigger] s[i] != #[trigger] s[j]
}

/// The identity mapping on `{0, .., n-1}`.
pub open spec fn identity_seq(n: nat) -> Seq<usize> {
    Seq::new(n, |i: int| i as usize)
}

/// `inv` undoes `p`, and `p` undoes `inv`.
pub open spec fn inverse_pair(p: Seq<usize>, inv: Seq<usize>) -> bool {
    &&& p.len() == inv.len()
    &&& forall|i: int| 0 <= i < p.len() ==> #[trigger] p[i] < p.len() && inv[p[i] as int] == i
    &&& forall|i: int| 0 <= i < inv.len() ==> #[trigger] inv[i] < inv.len() && p[inv[i] as int] == i
}

/// A bijection on `{0, .., n-1}`: index `i` is sent to `perm[i]`.
///
/// The inverse mapping is kept alongside, so that inverting costs no search.
#[derive(Debug)]
pub struct Permutation {
    perm: Vec<usize>,
    inv: Vec<usize>,
}

impl Clone for Permutation {
    fn clone(&self) -> Self {
        proof {
            use_type_invariant(self);
        }
        let perm = self.perm.clone();
        let inv = self.inv.clone();
        assert(perm@ =~= self.perm@);
        assert(inv@ =~= self.inv@);
        Permutation { perm, inv }
    }
}

impl View for Permutation {
    type V = Seq<usize>;

    closed spec fn view(&self) -> Seq<usize> {
        self.perm@
    }
}

proof fn lemma_inverse_pair_is_permutation(p: Seq<usize>, inv: Seq<usize>)
    requires
        inverse_pair(p, inv),
    ensures
        is_permutation(p),
        is_permutation(inv),
{
    assert forall|i: int, j: int| 0 <= i < p.len() && 0 <= j < p.len() && i != j implies #[trigger] p[i] != #[trigger] p[j] by {
        assert(inv[p[i] as int] == i);
        assert(inv[p[j] as int] == j);
    }
    assert forall|i: int, j: int| 0 <= i < inv.len() && 0 <= j < inv.len() && i != j implies #[trigger] inv[i] != #[trigger] inv[j] by {
        assert(p[inv[i] as int] == i);
        assert(p[inv[j] as int] == j);
    }
}

impl Permutation {
    #[verifier::type_invariant]
    spec fn inv_holds(&self) -> bool {
        inverse_pair(self.perm@, self.inv@)
    }

    /// The permutation that sends every index to itself.
    pub fn identity(n: usize) -> (r: Permutation)
        ensures
            r@ == identity_seq(n as nat),
            is_permutation(r@),
    {
        let mut perm: Vec<usize> = Vec::new();
        let mut inv: Vec<usize> = Vec::new();
        let mut i: usize = 0;
        while i < n
            invariant
                i <= n,
                perm@ == identity_seq(i as nat),
                inv@ == identity_seq(i as nat),
            decreases n - i,
        {
            perm.push(i);
            inv.push(i);
            i = i + 1;
            assert(perm@ =~= identity_seq(i as nat));
            assert(inv@ =~= identity_seq(i as nat));
        }
        proof {
            lemma_inverse_pair_is_permutation(perm@, inv@);
        }
        Permutation { perm, inv }
    }

    /// The image of index `i`.
    pub fn image(&self, i: usize) -> (r: usize)
        requires
            i < self@.len(),
        ensures
            r == self@[i as int],
    {
        self.perm[i]
    }

    /// The number of indices permuted.
    pub fn cardinality(&self) -> (r: usize)
        ensures
            r == self@.len(),
    {
        self.perm.len()
    }

    /// Exchanges the images of indices `i` and `j`.
    pub fn swap(&mut self, i: usize, j: usize)
        requires
            i < old(self)@.len(),
            j < old(self)@.len(),
        ensures
            final(self)@ == old(self)@.update(i as int, old(self)@[j as int]).update(j as int, old(self)@[i as int]),
            is_permutation(final(self)@),
    {
        proof {
            use_type_invariant(&*self);
        }
        let pi = self.perm[i];
        let pj = self.perm[j];
        let ghost p = self.perm@;
        let ghost q = self.inv@;
        let mut perm = self.perm.clone();
        let mut inv = self.inv.clone();
        assert(perm@ =~= p);
        assert(inv@ =~= q);
        perm.set(i, pj);
        perm.set(j, pi);
        inv.set(pj, i);
        inv.set(pi, j);
        proof {
            let p2 = perm@;
            let q2 = inv@;
            assert forall|k: int| 0 <= k < p2.len() implies #[trigger] p2[k] < p2.len() && q2[p2[k] as int] == k by {
                if k != i && k != j {
                    assert(p2[k] == p[k]);
                    assert(p[k] != pi && p[k] != pj) by {
                        lemma_inverse_pair_is_permutation(p, q);
                    }
                }
            }
            assert forall|k: int| 0 <= k < q2.len() implies #[trigger] q2[k] < q2.len() && p2[q2[k] as int] == k by {
                if k != pi && k != pj {
                    assert(q2[k] == q[k]);
                    assert(q[k] != i && q[k] != j);
                }
            }
        }
        proof {
            lemma_inverse_pair_is_permutation(perm@, inv@);
        }
        *self = Permutation { perm, inv };
    }

    /// The permutation that undoes this one.
    pub fn inverse(&self) -> (r: Permutation)
        ensures
            r@.len() == self@.len(),
            forall|i: int| 0 <= i < self@.len() ==> #[trigger] r@[self@[i] as int] == i,
            forall|i: int| 0 <= i < r@.len() ==> #[trigger] self@[r@[i] as int] == i,
            is_permutation(r@),
    {
        proof {
            use_type_invariant(self);
        }
        let perm = self.inv.clone();
        let inv = self.perm.clone();
        assert(perm@ =~= self.inv@);
        assert(inv@ =~= self.perm@);
        proof {
            lemma_inverse_pair_is_permutation(perm@, inv@);
        }
        Permutation { perm, inv }
    }
}

/// A square permutation matrix: row `i` holds its single one in column `perm[i]`.
#[derive(Clone, Debug)]
pub struct PermutationMatrix {
    pub perm: Permutation,
}

impl View for PermutationMatrix {
    type V = Seq<usize>;

    open spec fn view(&self) -> Seq<usize> {
        self.perm@
    }
}

proof fn lemma_earlier_row(a: int, b: int, i: int, n: int)
    requires
        0 <= a < i,
        0 <= b < n,
    ensures
        0 <= a * n + b < i * n,
{
    assert((a + 1) * n <= i * n) by (nonlinear_arith)
        requires
            a + 1 <= i, 0 <= n,
    ;
    assert((a + 1) * n == a * n + n) by (nonlinear_arith);
    assert(0 <= a * n) by (nonlinear_arith)
        requires
            0 <= a, 0 <= n,
    ;
}

impl PermutationMatrix {
    /// The identity permutation matrix of dimension `n`.
    pub fn identity(n: usize) -> (r: PermutationMatrix)
        ensures
            r@ == identity_seq(n as nat),
            is_permutation(r@),
    {
        PermutationMatrix { perm: Permutation::identity(n) }
    }

    /// Exchanges rows `i` and `j`.
    pub fn swap(&mut self, i: usize, j: usize)
        requires
            i < old(self)@.len(),
            j < old(self)@.len(),
        ensures
            final(self)@ == old(self)@.update(i as int, old(self)@[j as int]).update(j as int, old(self)@[i as int]),
            is_permutation(final(self)@),
    {
        self.perm.swap(i, j);
    }

    /// The inverse permutation matrix, which is also its transpose.
    pub fn inverse(&self) -> (r: PermutationMatrix)
        ensures
            r@.len() == self@.len(),
            forall|i: int| 0 <= i < self@.len() ==> #[trigger] r@[self@[i] as int] == i,
            forall|i: int| 0 <= i < r@.len() ==> #[trigger] self@[r@[i] as int] == i,
            is_permutation(r@),
    {
        PermutationMatrix { perm: self.perm.inverse() }
    }

    /// The dimension; the matrix is square.
    pub fn dim(&self) -> (r: usize)
        ensures
            r == self@.len(),
    {
        self.perm.cardinality()
    }

    /// The dense form: `one` at `(i, perm[i])` for every row `i`, `zero` elsewhere.
    pub fn as_matrix<T: Copy>(&self, zero: T, one: T) -> (r: Matrix<T>)
        requires
            self@.len() * self@.len() <= usize::MAX,
        ensures
            r.wf(),
            r.nrows() == self@.len(),
            r.ncols() == self@.len(),
            forall|i: int, j: int|
                0 <= i < self@.len() && 0 <= j < self@.len() ==> #[trigger] r.entry(i, j) == (if self@[i] == j {
                    one
                } else {
                    zero
                }),
    {
        let n = self.perm.cardinality();
        let mut data: Vec<T> = Vec::new();
        let mut i: usize = 0;
        while i < n
            invariant
                n == self@.len(),
                i <= n,
                data@.len() == i * n,
                forall|a: int, b: int|
                    0 <= a < i && 0 <= b < n ==> #[trigger] data@[a * n + b] == (if self@[a] == b {
                        one
                    } else {
                        zero
                    }),
            decreases n - i,
        {
            let mut j: usize = 0;
            let ghost start = data@;
            while j < n
                invariant
                    n == self@.len(),
                    i < n,
                    j <= n,
                    data@.len() == i * n + j,
                    start.len() == i * n,
                    forall|k: int| 0 <= k < i * n ==> #[trigger] data@[k] == start[k],
                    forall|b: int|
                        0 <= b < j ==> #[trigger] data@[i * n + b] == (if self@[i as int] == b {
                            one
                        } else {
                            zero
                        }),
                decreases n - j,
            {
                let image = self.perm.image(i);
                if image == j {
                    data.push(one);
                } else {
                    data.push(zero);
                }
                j = j + 1;
            }
            proof {
                assert forall|a: int, b: int|
                    0 <= a < i + 1 && 0 <= b < n implies #[trigger] data@[a * n + b] == (if self@[a] == b {
                        one
                    } else {
                        zero
                    }) by {
                    if a < i {
                        lemma_earlier_row(a, b, i as int, n as int);
                    }
                }
                assert((i + 1) * n == i * n + n) by (nonlinear_arith);
            }
            i = i + 1;
        }
        Matrix::new(n, n, data)
    }
}

impl From<Permutation> for PermutationMatrix {
    fn from(perm: Permutation) -> (r: PermutationMatrix) {
        PermutationMatrix { perm }
    }
}

impl vstd::std_specs::convert::FromSpecImpl<Permutation> for PermutationMatrix {
    open spec fn obeys_from_spec() -> bool {
        true
    }

    open spec fn from_spec(v: Permutation) -> PermutationMatrix {
        PermutationMatrix { perm: v }
    }
}

} // verus!
