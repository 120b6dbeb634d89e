use vstd::prelude::*;

verus! {

/// Why a Butcher tableau `(A, b)` was refused.
#[derive(Debug, Clone, Copy, PartialEq, Eq, Structural)]
pub enum TableauError {
    /// `A` has a different number of rows and columns.
    NotSquare,
    /// `A` is square, but its dimension differs from the length of `b`.
    WeightsMismatch,
}

/// A tableau with `a_rows × a_cols` coefficients and `b_len` weights is
/// well formed exactly when `A` is square of dimension `b_len`.
pub open spec fn shape_ok(a_rows: nat, a_cols: nat, b_len: nat) -> bool {
    a_rows == b_len && a_cols == b_len
}

/// Checks the shape of a tableau before any integrator is built from it and
/// returns its number of stages.
pub fn tableau_stages(a_rows: usize, a_cols: usize, b_len: usize) -> (r: Result<usize, TableauError>)
    ensures
        r is Ok <==> shape_ok(a_rows as nat, a_cols as nat, b_len as nat),
        r is Ok ==> r->Ok_0 == b_len,
        r == Err::<usize, TableauError>(TableauError::NotSquare) <==> a_rows != a_cols,
        r == Err::<usize, TableauError>(TableauError::WeightsMismatch) <==> (a_rows == a_cols
            && a_rows != b_len),
{
    if a_rows != a_cols {
        Err(TableauError::NotSquare)
    } else if a_rows != b_len {
        Err(TableauError::WeightsMismatch)
    } else {
        Ok(b_len)
    }
}

} // verus!
