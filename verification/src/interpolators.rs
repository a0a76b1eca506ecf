//! Linear interpolation between samples and between levels, by a fixed-point
//! fraction.
use vstd::prelude::*;
use crate::fixed::{interpolated, interpolated_level, lemma_weighted_between, ONE};

verus! {

/// Linear interpolation between two samples by a fixed-point fraction.
pub fn lerp(a: i16, b: i16, t: u32) -> (out: i16)
    ensures
        out == interpolated(a as int, b as int, t as int),
        t <= ONE && a <= b ==> a <= out <= b,
        t <= ONE && b <= a ==> b <= out <= a,
        t == 0 ==> out == a,
        t == ONE ==> out == b,
{
    let from: i64 = a as i64;
    let to: i64 = b as i64;
    let near: i64 = 65536 - (t as i64);
    let far: i64 = t as i64;
    assert(-140737488355328 <= from * near <= 140737488355328) by (nonlinear_arith)
        requires
            -32768 <= from <= 32767,
            -4294967295 <= near <= 65536,
    ;
    assert(-140737488355328 <= to * far <= 140737488355328) by (nonlinear_arith)
        requires
            -32768 <= to <= 32767,
            0 <= far <= 4294967295,
    ;
    let total: i64 = from * near + to * far;
    proof {
        if t <= ONE {
            lemma_weighted_between(from as int, to as int, far as int);
        }
    }
    let quotient: i64 = total / 65536;
    if quotient > 32767 {
        32767
    } else if quotient < -32768 {
        -32768
    } else {
        quotient as i16
    }
}

/// Linear interpolation between two levels by a fixed-point fraction.
pub fn lerp_level(a: u32, b: u32, t: u32) -> (out: u32)
    ensures
        out == interpolated_level(a as int, b as int, t as int),
        a <= b ==> a <= out <= b,
        b <= a ==> b <= out <= a,
{
    let far: u64 = if t > ONE { ONE as u64 } else { t as u64 };
    let near: u64 = ONE as u64 - far;
    let from: u64 = a as u64;
    let to: u64 = b as u64;
    assert(from * near <= 0x1_0000_0000_0000) by (nonlinear_arith)
        requires
            from <= 0xFFFF_FFFF,
            near <= 0x1_0000,
    ;
    assert(to * far <= 0x1_0000_0000_0000) by (nonlinear_arith)
        requires
            to <= 0xFFFF_FFFF,
            far <= 0x1_0000,
    ;
    proof {
        lemma_weighted_between(from as int, to as int, far as int);
    }
    let total: u64 = from * near + to * far;
    (total / 65536) as u32
}

} // verus!
