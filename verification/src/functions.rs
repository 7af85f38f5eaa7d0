//! Functions as values.

use vstd::prelude::*;

verus! {

/// The number after `x`.
pub fn add_one(x: i32) -> (y: i32)
    requires
        x < i32::MAX,
    ensures
        y == x + 1,
{
    x + 1
}

/// Calls `f` on `arg` twice and adds up what it gives.
pub fn do_twice<F: Fn(i32) -> i32>(f: F, arg: i32) -> (sum: i32)
    requires
        f.requires((arg,)),
        forall|a: i32, b: i32|
            f.ensures((arg,), a) && f.ensures((arg,), b) ==> i32::MIN <= a + b <= i32::MAX,
    ensures
        exists|a: i32, b: i32| f.ensures((arg,), a) && f.ensures((arg,), b) && sum == a + b,
{
    let a: i32 = f(arg);
    let b: i32 = f(arg);
    a + b
}

} // verus!
