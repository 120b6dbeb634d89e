use vstd::prelude::*;
use crate::layout::{StageLayout, flat_index, lemma_split_flat, lemma_flat_in_range, lemma_split_join};

verus! {

/// Block `i` of a stacked vector whose blocks have `dim` entries.
pub open spec fn block<T>(g: Seq<T>, dim: int, i: int) -> Seq<T> {
    g.subrange(i * dim, i * dim + dim)
}

/// The blocks `bs`, each of `dim` entries, laid end to end.
pub open spec fn stacked<T>(bs: Seq<Seq<T>>, dim: int) -> Seq<T> {
    Seq::new((bs.len() * dim) as nat, |k: int| bs[k / dim][k % dim])
}

/// Every block of `bs` has `dim` entries.
pub open spec fn uniform<T>(bs: Seq<Seq<T>>, dim: int) -> bool {
    forall|i: int| 0 <= i < bs.len() ==> #[trigger] bs[i].len() == dim
}

/// The views of a sequence of vectors.
pub open spec fn views<T>(vs: Seq<Vec<T>>) -> Seq<Seq<T>> {
    vs.map_values(|v: Vec<T>| v@)
}

/// Cutting block `i` out of stacked blocks gives block `i` back.
pub proof fn lemma_block_of_stacked<T>(bs: Seq<Seq<T>>, dim: int, i: int)
    requires
        0 < dim,
        uniform(bs, dim),
        0 <= i < bs.len(),
    ensures
        block(stacked(bs, dim), dim, i) == bs[i],
{
    let g = stacked(bs, dim);
    lemma_flat_in_range(bs.len() as int, dim, i, 0);
    assert forall|p: int| 0 <= p < dim implies #[trigger] block(g, dim, i)[p] == bs[i][p] by {
        lemma_split_flat(dim, i, p);
        lemma_flat_in_range(bs.len() as int, dim, i, p);
    }
    assert(block(g, dim, i) =~= bs[i]);
}

/// Copies block `i` out of the stacked vector `g`.
pub fn block_of<T: Copy>(layout: &StageLayout, g: &Vec<T>, i: usize) -> (r: Vec<T>)
    requires
        layout.wf(),
        g@.len() == layout.size(),
        i < layout.stages,
    ensures
        r@ == block(g@, layout.dim as int, i as int),
{
    let start = layout.block_start(i);
    let mut r: Vec<T> = Vec::new();
    let mut p: usize = 0;
    while p < layout.dim
        invariant
            layout.wf(),
            g@.len() == layout.size(),
            start == flat_index(layout.dim as int, i as int, 0),
            start + layout.dim <= layout.size(),
            p <= layout.dim,
            r@ == g@.subrange(start as int, start + p),
        decreases layout.dim - p,
    {
        r.push(g[start + p]);
        p = p + 1;
        assert(r@ =~= g@.subrange(start as int, start + p));
    }
    r
}

/// Lays the blocks end to end, block `i` first at position `i · dim`.
pub fn stack<T: Copy>(layout: &StageLayout, blocks: &Vec<Vec<T>>) -> (r: Vec<T>)
    requires
        layout.wf(),
        blocks@.len() == layout.stages,
        uniform(views(blocks@), layout.dim as int),
    ensures
        r@ == stacked(views(blocks@), layout.dim as int),
{
    let n = layout.len();
    let ghost bs = views(blocks@);
    let mut r: Vec<T> = Vec::new();
    let mut k: usize = 0;
    while k < n
        invariant
            layout.wf(),
            n == layout.size(),
            blocks@.len() == layout.stages,
            bs == views(blocks@),
            uniform(bs, layout.dim as int),
            k <= n,
            r@.len() == k,
            forall|c: int| 0 <= c < k ==> #[trigger] r@[c] == stacked(bs, layout.dim as int)[c],
        decreases n - k,
    {
        let (i, p) = layout.split(k);
        proof {
            lemma_split_flat(layout.dim as int, i as int, p as int);
            assert(bs[i as int] == blocks@[i as int]@);
        }
        r.push(blocks[i][p]);
        k = k + 1;
    }
    assert(r@ =~= stacked(bs, layout.dim as int));
    r
}

/// Builds the `(stages·dim) × (stages·dim)` block matrix whose entry in row
/// `i·dim + p` and column `j·dim + q` is `entry(i, j, p, q)`: entry `(p, q)`
/// of block `(i, j)`. A Kronecker product `A ⊗ B` is the case
/// `entry(i, j, p, q) = A[i][j] · B[p][q]`; a block row `A[i, :] ⊗ B_i` whose
/// right factor changes with the row is `A[i][j] · B_i[p][q]`.
pub fn assemble_blocks<T, F: Fn(usize, usize, usize, usize) -> T>(
    layout: &StageLayout,
    entry: F,
) -> (r: Vec<Vec<T>>)
    requires
        layout.wf(),
        forall|i: usize, j: usize, p: usize, q: usize|
            i < layout.stages && j < layout.stages && p < layout.dim && q < layout.dim
                ==> #[trigger] entry.requires((i, j, p, q)),
    ensures
        r@.len() == layout.size(),
        forall|row: int| 0 <= row < r@.len() ==> #[trigger] r@[row]@.len() == layout.size(),
        forall|i: usize, j: usize, p: usize, q: usize|
            i < layout.stages && j < layout.stages && p < layout.dim && q < layout.dim
                ==> entry.ensures(
                (i, j, p, q),
                #[trigger] r@[flat_index(layout.dim as int, i as int, p as int)]@[flat_index(
                    layout.dim as int,
                    j as int,
                    q as int,
                )],
            ),
{
    let n = layout.len();
    let d = layout.dim;
    let mut r: Vec<Vec<T>> = Vec::new();
    let mut row: usize = 0;
    while row < n
        invariant
            layout.wf(),
            n == layout.size(),
            d == layout.dim,
            forall|i: usize, j: usize, p: usize, q: usize|
                i < layout.stages && j < layout.stages && p < layout.dim && q < layout.dim
                    ==> #[trigger] entry.requires((i, j, p, q)),
            row <= n,
            r@.len() == row,
            forall|a: int| 0 <= a < row ==> #[trigger] r@[a]@.len() == n,
            forall|a: int, c: int|
                0 <= a < row && 0 <= c < n ==> entry.ensures(
                    ((a / d as int) as usize, (c / d as int) as usize, (a % d as int) as usize, (
                    c % d as int) as usize),
                    #[trigger] r@[a]@[c],
                ),
        decreases n - row,
    {
        let (i, p) = layout.split(row);
        proof {
            lemma_split_flat(d as int, i as int, p as int);
        }
        let mut rv: Vec<T> = Vec::new();
        let mut col: usize = 0;
        while col < n
            invariant
                layout.wf(),
                n == layout.size(),
                d == layout.dim,
                forall|i: usize, j: usize, p: usize, q: usize|
                    i < layout.stages && j < layout.stages && p < layout.dim && q < layout.dim
                        ==> #[trigger] entry.requires((i, j, p, q)),
                i < layout.stages,
                p < layout.dim,
                col <= n,
                rv@.len() == col,
                forall|c: int|
                    0 <= c < col ==> entry.ensures(
                        (i, (c / d as int) as usize, p, (c % d as int) as usize),
                        #[trigger] rv@[c],
                    ),
            decreases n - col,
        {
            let (j, q) = layout.split(col);
            proof {
                lemma_split_flat(d as int, j as int, q as int);
            }
            let v = entry(i, j, p, q);
            rv.push(v);
            col = col + 1;
        }
        r.push(rv);
        row = row + 1;
    }
    assert forall|i: usize, j: usize, p: usize, q: usize|
        i < layout.stages && j < layout.stages && p < layout.dim && q < layout.dim
            implies entry.ensures(
            (i, j, p, q),
            #[trigger] r@[flat_index(layout.dim as int, i as int, p as int)]@[flat_index(
                layout.dim as int,
                j as int,
                q as int,
            )],
        ) by {
        lemma_split_join(*layout, i as nat, p as nat);
        lemma_split_join(*layout, j as nat, q as nat);
    }
    r
}

} // verus!
