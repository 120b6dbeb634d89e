use vstd::prelude::*;
use vstd::arithmetic::div_mod::lemma_fundamental_div_mod_converse;

verus! {

/// How the unknowns of one implicit step are laid out: `stages` blocks of
/// `dim` entries each, block `i` holding the displacement of stage `i`.
/// Entry `p` of block `i` sits at flat position `i * dim + p`.
#[derive(Debug, Clone, Copy, PartialEq, Eq, Structural)]
pub struct StageLayout {
    pub stages: usize,
    pub dim: usize,
}

/// Flat position of entry `p` of block `i` when blocks have `dim` entries.
pub open spec fn flat_index(dim: int, i: int, p: int) -> int {
    i * dim + p
}

/// A flat position `k` splits into `(i, p)` with `k == i * dim + p`, `p < dim`.
pub proof fn lemma_split_flat(dim: int, i: int, p: int)
    requires
        0 < dim,
        0 <= i,
        0 <= p < dim,
    ensures
        flat_index(dim, i, p) / dim == i,
        flat_index(dim, i, p) % dim == p,
{
    lemma_fundamental_div_mod_converse(i * dim + p, dim, i, p);
}

/// Entry `p` of block `i` lies inside the stacked vector of `stages` blocks.
pub proof fn lemma_flat_in_range(stages: int, dim: int, i: int, p: int)
    requires
        0 <= i < stages,
        0 <= p < dim,
    ensures
        0 <= flat_index(dim, i, p) < stages * dim,
        flat_index(dim, i, p) + (dim - p) <= stages * dim,
{
    assert(i * dim + dim <= stages * dim) by (nonlinear_arith)
        requires
            0 <= i < stages,
            0 <= p < dim,
    ;
    assert(0 <= i * dim) by (nonlinear_arith)
        requires
            0 <= i,
            0 <= p < dim,
    ;
}

impl StageLayout {
    /// The stacked vector's length fits in a `usize`.
    pub open spec fn wf(&self) -> bool {
        self.stages * self.dim <= usize::MAX
    }

    /// Length of the stacked vector.
    pub open spec fn size(&self) -> nat {
        (self.stages * self.dim) as nat
    }

    /// A layout of `stages` blocks of `dim` entries, or `None` when the
    /// stacked vector would be too long to index.
    pub fn new(stages: usize, dim: usize) -> (r: Option<StageLayout>)
        ensures
            r is Some <==> stages * dim <= usize::MAX,
            r is Some ==> r->Some_0.stages == stages && r->Some_0.dim == dim && r->Some_0.wf(),
    {
        match stages.checked_mul(dim) {
            Some(_) => Some(StageLayout { stages, dim }),
            None => None,
        }
    }

    /// Length of the stacked vector: `stages · dim`.
    pub fn len(&self) -> (r: usize)
        requires
            self.wf(),
        ensures
            r == self.size(),
    {
        self.stages * self.dim
    }

    /// Position of the first entry of block `i`.
    pub fn block_start(&self, i: usize) -> (r: usize)
        requires
            self.wf(),
            i < self.stages,
        ensures
            r == flat_index(self.dim as int, i as int, 0),
            r + self.dim <= self.size(),
    {
        proof {
            if self.dim > 0 {
                lemma_flat_in_range(self.stages as int, self.dim as int, i as int, 0);
            } else {
                assert(i * self.dim == 0) by (nonlinear_arith)
                    requires
                        self.dim == 0,
                ;
            }
        }
        i * self.dim
    }

    /// Flat position of entry `p` of block `i`.
    pub fn join(&self, i: usize, p: usize) -> (r: usize)
        requires
            self.wf(),
            i < self.stages,
            p < self.dim,
        ensures
            r == flat_index(self.dim as int, i as int, p as int),
            r < self.size(),
    {
        proof {
            lemma_flat_in_range(self.stages as int, self.dim as int, i as int, p as int);
        }
        i * self.dim + p
    }

    /// Block and offset of flat position `k`.
    pub fn split(&self, k: usize) -> (r: (usize, usize))
        requires
            self.wf(),
            k < self.size(),
        ensures
            r.0 < self.stages,
            r.1 < self.dim,
            k == flat_index(self.dim as int, r.0 as int, r.1 as int),
    {
        proof {
            if self.dim == 0 {
                assert(self.stages * self.dim == 0) by (nonlinear_arith)
                    requires
                        self.dim == 0,
                ;
            }
        }
        let i = k / self.dim;
        let p = k % self.dim;
        proof {
            vstd::arithmetic::div_mod::lemma_fundamental_div_mod(k as int, self.dim as int);
            if i >= self.stages {
                assert(i * self.dim >= self.stages * self.dim) by (nonlinear_arith)
                    requires
                        i >= self.stages,
                ;
                assert(false);
            }
        }
        (i, p)
    }
}

/// Joining the parts that `split` gives back yields the position split.
pub proof fn lemma_split_join(layout: StageLayout, i: nat, p: nat)
    requires
        layout.wf(),
        i < layout.stages,
        p < layout.dim,
    ensures
        flat_index(layout.dim as int, i as int, p as int) < layout.size(),
        flat_index(layout.dim as int, i as int, p as int) / (layout.dim as int) == i,
        flat_index(layout.dim as int, i as int, p as int) % (layout.dim as int) == p,
{
    lemma_flat_in_range(layout.stages as int, layout.dim as int, i as int, p as int);
    lemma_split_flat(layout.dim as int, i as int, p as int);
}

} // verus!
