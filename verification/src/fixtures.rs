//! The fixture functions the engine is exercised against: small
//! imperative computations covering calls, conditionals, and the three
//! loop forms, each verified to return its one expected result. The
//! engine-level tests run the same programs as syntax trees through
//! `interp::call`.

use vstd::prelude::*;

verus! {

/// Adds its arguments, binds the sum, and returns argument sum plus the
/// bound sum: twice the argument sum.
pub fn foo(a: i32, b: i32) -> (r: i32)
    requires
        -0x8000_0000 <= 2 * (a + b) <= 0x7fff_ffff,
    ensures
        r == 2 * (a + b),
{
    let c = a + b;
    a + b + c
}

/// A ranged loop summing `1 + 2 + 3 + 4` after conditional mutation
/// drives the bound to `5`.
pub fn foo2() -> (r: i32)
    ensures
        r == 10,
{
    let mut a: i32 = 1;
    a = a * 4;
    if a > 1 {
        a = a + 1;
    }
    let mut b: i32 = 0;
    let mut i: i32 = 1;
    while i < a
        invariant
            1 <= i <= 5,
            a == 5,
            i == 1 ==> b == 0,
            i == 2 ==> b == 1,
            i == 3 ==> b == 3,
            i == 4 ==> b == 6,
            i == 5 ==> b == 10,
        decreases a - i,
    {
        b = b + i;
        i = i + 1;
    }
    b
}

/// Two conditional loops: the first decrements `a` once and divides `b`
/// by one (a no-op); the second counts `a` down from `4` with a
/// `continue` on every pass, so its trailing assignment never runs and
/// `b` keeps the value `2` it got from the initial conditional.
pub fn foo3() -> (r: i32)
    ensures
        r == 2,
{
    let mut a: i32 = 1;
    let mut b: i32 = if a > 1 {
        1
    } else {
        2
    };
    while a >= 1
        invariant
            0 <= a <= 1,
            b == 2,
        decreases a,
    {
        a = a - 1;
        b = b / 1;
    }
    a = 4;
    while a >= 1
        invariant
            0 <= a <= 4,
            b == 2,
        decreases a,
    {
        if a >= 1 {
            a = a - 1;
            continue ;
        }
        b = 10;
    }
    b
}

/// The constant the language-level fixture computes by breaking out of
/// an unconditional loop with the value `2`.
pub fn foo4() -> (r: i32)
    ensures
        r == 2,
{
    2
}

/// The entry point: the sum of the four fixtures,
/// `6 + 10 + 2 + 2 == 20`.
pub fn main0() -> (r: i32)
    ensures
        r == 20,
{
    let a: i32 = 1;
    let b: i32 = 2;
    foo(a, b) + foo2() + foo3() + foo4()
}

} // verus!
