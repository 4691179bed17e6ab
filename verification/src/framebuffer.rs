//! The framebuffer storage: a `bitmatrix::BitMatrix` held behind trusted
//! wrappers. The abstract contents of a matrix are named by the
//! uninterpreted function [`grid_of`], a sequence of rows of booleans
//! indexed `grid_of(m)[row][column]`; every wrapper's contract speaks of
//! that name.

use vstd::prelude::*;

verus! {

use bitmatrix::BitMatrix;

#[verifier::external_type_specification]
#[verifier::external_body]
pub struct ExBitMatrix(BitMatrix);

/// What a `BitMatrix` holds: one sequence of booleans per row.
pub uninterp spec fn grid_of(m: BitMatrix) -> Seq<Seq<bool>>;

/// Relies on `BitMatrix::new`: a `rows` x `cols` matrix with all bits
/// initialized to false.
#[verifier::external_body]
pub(crate) fn fb_new(rows: usize, cols: usize) -> (m: BitMatrix)
    ensures
        grid_of(m).len() == rows as int,
        forall|i: int|
            0 <= i < rows as int ==> (#[trigger] grid_of(m)[i]).len() == cols as int,
        forall|i: int, j: int|
            0 <= i < rows as int && 0 <= j < cols as int ==> !(#[trigger] grid_of(m)[i][j]),
{
    BitMatrix::new(rows, cols)
}

/// Relies on `BitMatrix`'s `Index<(usize, usize)>`: the bit at row `i`,
/// column `j`.
#[verifier::external_body]
pub(crate) fn fb_get(m: &BitMatrix, i: usize, j: usize) -> (b: bool)
    requires
        i < grid_of(*m).len(),
        j < grid_of(*m)[i as int].len(),
    ensures
        b == grid_of(*m)[i as int][j as int],
{
    m[(i, j)]
}

/// Relies on `BitMatrix::set`: writes the bit at row `i`, column `j` and
/// leaves every other bit alone.
#[verifier::external_body]
pub(crate) fn fb_set(m: &mut BitMatrix, i: usize, j: usize, b: bool)
    requires
        i < grid_of(*old(m)).len(),
        j < grid_of(*old(m))[i as int].len(),
    ensures
        grid_of(*final(m)) == grid_of(*old(m)).update(
            i as int,
            grid_of(*old(m))[i as int].update(j as int, b),
        ),
{
    m.set((i, j), b);
}

/// Relies on `BitMatrix::set_all`: writes every bit of the matrix.
#[verifier::external_body]
pub(crate) fn fb_set_all(m: &mut BitMatrix, b: bool)
    ensures
        grid_of(*final(m)).len() == grid_of(*old(m)).len(),
        forall|i: int|
            0 <= i < grid_of(*old(m)).len() ==> (#[trigger] grid_of(*final(m))[i]).len()
                == grid_of(*old(m))[i].len(),
        forall|i: int, j: int|
            0 <= i < grid_of(*old(m)).len() && 0 <= j < grid_of(*old(m))[i].len() ==> (
            #[trigger] grid_of(*final(m))[i][j]) == b,
{
    m.set_all(b);
}

/// Relies on `BitMatrix`'s derived `Clone`: a field-for-field copy, so
/// the copy holds the same bits.
#[verifier::external_body]
pub(crate) fn fb_clone(m: &BitMatrix) -> (r: BitMatrix)
    ensures
        grid_of(r) == grid_of(*m),
{
    m.clone()
}

} // verus!
