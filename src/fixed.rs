use vstd::prelude::*;

verus! {

/// One thermal unit: temperatures are stored in units of `1 / TEMP_ONE`.
pub const TEMP_ONE: i64 = 0x400;

/// Largest magnitude a stored temperature may have.
pub const TEMP_LIMIT: i64 = 0x1000_0000;

/// The value `v` limited to `[-TEMP_LIMIT, TEMP_LIMIT]`.
pub open spec fn saturate(v: int) -> int {
    if v > TEMP_LIMIT {
        TEMP_LIMIT as int
    } else if v < -TEMP_LIMIT {
        -TEMP_LIMIT
    } else {
        v
    }
}

/// Whether `v` is a temperature the model can store.
pub open spec fn in_range(v: int) -> bool {
    -TEMP_LIMIT <= v <= TEMP_LIMIT
}

/// Division rounding toward negative infinity.
pub fn floor_div(a: i128, d: i128) -> (q: i128)
    requires
        d > 0,
        a > i128::MIN,
    ensures
        q == a / d,
{
    if a >= 0 {
        a / d
    } else {
        let p: i128 = -a - 1;
        let r: i128 = p / d;
        proof {
            let s = p % d;
            vstd::arithmetic::div_mod::lemma_fundamental_div_mod(p as int, d as int);
            assert(a == (-r - 1) * d + (d - s - 1)) by (nonlinear_arith)
                requires
                    p == d * r + s,
                    a == -p - 1,
            ;
            vstd::arithmetic::div_mod::lemma_fundamental_div_mod_converse(
                a as int,
                d as int,
                -r - 1,
                d - s - 1,
            );
        }
        -r - 1
    }
}

/// Limits `v` to the storable temperature range.
pub fn saturate_exec(v: i128) -> (r: i64)
    ensures
        r == saturate(v as int),
{
    if v > TEMP_LIMIT as i128 {
        TEMP_LIMIT
    } else if v < -(TEMP_LIMIT as i128) {
        -TEMP_LIMIT
    } else {
        v as i64
    }
}

} // verus!
