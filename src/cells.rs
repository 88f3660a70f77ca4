use vstd::prelude::*;

verus! {

/// The most cells an array may have: the bytes of its `i64` values must fit
/// in `isize` on every target.
pub const MAX_CELLS: usize = 0x0fff_ffff;

/// A dense two-dimensional array of temperatures, indexed by
/// `[longitude column][colatitude row]`, kept in an `ndarray::Array2`.
#[verifier::external_body]
pub struct CellArray {
    data: ndarray::Array2<i64>,
}

/// What a `CellArray` holds: one sequence per longitude column, each holding
/// that column's values from row `0` upward.
pub uninterp spec fn cells_of(a: CellArray) -> Seq<Seq<i64>>;

/// Whether `s` is a `w` by `h` array.
pub open spec fn has_shape(s: Seq<Seq<i64>>, w: int, h: int) -> bool {
    &&& s.len() == w
    &&& forall|x: int| 0 <= x < w ==> #[trigger] s[x].len() == h
}

/// Relies on `ndarray::Array2::zeros`: an array of the given shape filled with
/// zeros; it panics when the product of the non-zero axis lengths overflows
/// `isize`, and the allocation fails when the bytes do.
#[verifier::external_body]
pub(crate) fn cells_zeroed(w: usize, h: usize) -> (r: CellArray)
    requires
        1 <= w,
        1 <= h,
        w * h <= MAX_CELLS,
    ensures
        has_shape(cells_of(r), w as int, h as int),
        forall|x: int, y: int|
            0 <= x < w && 0 <= y < h ==> #[trigger] cells_of(r)[x][y] == 0,
{
    CellArray { data: ndarray::Array2::zeros((w, h)) }
}

/// Relies on indexing an `ndarray::Array2` by `[x, y]`: the element at column
/// `x`, row `y`; it panics out of bounds.
#[verifier::external_body]
pub(crate) fn cell_get(a: &CellArray, x: usize, y: usize) -> (v: i64)
    requires
        x < cells_of(*a).len(),
        y < cells_of(*a)[x as int].len(),
    ensures
        v == cells_of(*a)[x as int][y as int],
{
    a.data[[x, y]]
}

/// Relies on mutable indexing of an `ndarray::Array2` by `[x, y]`: only the
/// element at column `x`, row `y` changes; it panics out of bounds.
#[verifier::external_body]
pub(crate) fn cell_set(a: &mut CellArray, x: usize, y: usize, v: i64)
    requires
        x < cells_of(*old(a)).len(),
        y < cells_of(*old(a))[x as int].len(),
    ensures
        cells_of(*final(a)) == cells_of(*old(a)).update(
            x as int,
            cells_of(*old(a))[x as int].update(y as int, v),
        ),
{
    a.data[[x, y]] = v;
}

impl CellArray {
    /// A `w` by `h` array of zeros.
    pub fn new(w: usize, h: usize) -> (r: CellArray)
        requires
            1 <= w,
            1 <= h,
            w * h <= MAX_CELLS,
        ensures
            has_shape(cells_of(r), w as int, h as int),
            forall|x: int, y: int| 0 <= x < w && 0 <= y < h ==> #[trigger] cells_of(r)[x][y] == 0,
    {
        cells_zeroed(w, h)
    }

    /// The value at column `x`, row `y`.
    pub fn get(&self, x: usize, y: usize) -> (v: i64)
        requires
            x < cells_of(*self).len(),
            y < cells_of(*self)[x as int].len(),
        ensures
            v == cells_of(*self)[x as int][y as int],
    {
        cell_get(self, x, y)
    }

    /// Sets the value at column `x`, row `y`.
    pub fn set(&mut self, x: usize, y: usize, v: i64)
        requires
            x < cells_of(*old(self)).len(),
            y < cells_of(*old(self))[x as int].len(),
        ensures
            cells_of(*final(self)) == cells_of(*old(self)).update(
                x as int,
                cells_of(*old(self))[x as int].update(y as int, v),
            ),
    {
        cell_set(self, x, y, v)
    }
}

} // verus!
