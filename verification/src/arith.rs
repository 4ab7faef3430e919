//! Saturating coordinate arithmetic.
//!
//! World coordinates, velocities and accelerations are 64-bit integers; the
//! engine's kinematics clamp at the ends of the representable range instead
//! of wrapping or failing, so every pass stays a total operation.

use vstd::prelude::*;

verus! {

/// The nearest representable `i64`: values beyond either end clamp to it.
pub open spec fn sat64(v: int) -> i64 {
    if v > i64::MAX {
        i64::MAX
    } else if v < i64::MIN {
        i64::MIN
    } else {
        v as i64
    }
}

/// Saturating sum.
pub fn sat_add(a: i64, b: i64) -> (r: i64)
    ensures
        r == sat64(a + b),
{
    match a.checked_add(b) {
        Some(v) => v,
        None => if b > 0 {
            i64::MAX
        } else {
            i64::MIN
        },
    }
}

/// Saturating difference.
pub fn sat_sub(a: i64, b: i64) -> (r: i64)
    ensures
        r == sat64(a - b),
{
    match a.checked_sub(b) {
        Some(v) => v,
        None => if b < 0 {
            i64::MAX
        } else {
            i64::MIN
        },
    }
}

/// Saturating product.
pub fn sat_mul(a: i64, b: i64) -> (r: i64)
    ensures
        r == sat64(a * b),
{
    match a.checked_mul(b) {
        Some(v) => v,
        None => {
            proof {
                if a > 0 && b > 0 {
                    assert(a * b > 0) by (nonlinear_arith)
                        requires
                            a > 0 && b > 0,
                    ;
                } else if a < 0 && b < 0 {
                    assert(a * b > 0) by (nonlinear_arith)
                        requires
                            a < 0 && b < 0,
                    ;
                } else if a > 0 && b < 0 {
                    assert(a * b < 0) by (nonlinear_arith)
                        requires
                            a > 0 && b < 0,
                    ;
                } else if a < 0 && b > 0 {
                    assert(a * b < 0) by (nonlinear_arith)
                        requires
                            a < 0 && b > 0,
                    ;
                } else {
                    assert(a * b == 0) by (nonlinear_arith)
                        requires
                            a == 0 || b == 0,
                    ;
                }
            }
            if (a > 0) == (b > 0) {
                i64::MAX
            } else {
                i64::MIN
            }
        },
    }
}

} // verus!
