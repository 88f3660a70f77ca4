use vstd::prelude::*;

verus! {

/// The column west of `x`; longitude wraps around.
pub open spec fn west(w: int, x: int) -> int {
    if x == 0 { w - 1 } else { x - 1 }
}

/// The column east of `x`; longitude wraps around.
pub open spec fn east(w: int, x: int) -> int {
    if x == w - 1 { 0 } else { x + 1 }
}

/// The row toward colatitude `0` from `y`; row `0` is its own neighbour.
pub open spec fn north(y: int) -> int {
    if y == 0 { 0 } else { y - 1 }
}

/// The row toward colatitude `pi` from `y`; the last row is its own neighbour.
pub open spec fn south(h: int, y: int) -> int {
    if y == h - 1 { y } else { y + 1 }
}

/// Whether row `y` lies in the half of the grid nearer row `0`, where the
/// one-sided colatitude difference looks toward the equator.
pub open spec fn is_upper(h: int, y: int) -> bool {
    y < h / 2
}

/// The two rows of the one-sided colatitude difference at row `y`, as
/// `(far, near)`: `(y + 1, y)` in the upper half, `(y, y - 1)` in the lower.
pub open spec fn break_rows(h: int, y: int) -> (int, int) {
    if is_upper(h, y) { (y + 1, y) } else { (y, y - 1) }
}

pub fn west_of(w: usize, x: usize) -> (r: usize)
    requires
        x < w,
    ensures
        r == west(w as int, x as int),
        r < w,
{
    if x == 0 { w - 1 } else { x - 1 }
}

pub fn east_of(w: usize, x: usize) -> (r: usize)
    requires
        x < w,
    ensures
        r == east(w as int, x as int),
        r < w,
{
    if x == w - 1 { 0 } else { x + 1 }
}

pub fn north_of(y: usize) -> (r: usize)
    ensures
        r == north(y as int),
        r <= y,
{
    if y == 0 { 0 } else { y - 1 }
}

pub fn south_of(h: usize, y: usize) -> (r: usize)
    requires
        y < h,
    ensures
        r == south(h as int, y as int),
        r < h,
{
    if y == h - 1 { y } else { y + 1 }
}

/// The rows of the one-sided colatitude difference at row `y`.
pub fn break_rows_of(h: usize, y: usize) -> (r: (usize, usize))
    requires
        2 <= h,
        y < h,
    ensures
        (r.0 as int, r.1 as int) == break_rows(h as int, y as int),
        r.0 < h,
        r.1 < h,
{
    if y < h / 2 { (y + 1, y) } else { (y, y - 1) }
}

} // verus!
