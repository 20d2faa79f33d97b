//! Unwrapping `Result`s whose expected variant is known to the caller.

use vstd::prelude::*;

verus! {

/// Takes the value out of an `Ok`, which the caller must know it holds.
pub fn unwrap_ok<T, E>(res: Result<T, E>) -> (r: T)
    requires
        res is Ok,
    ensures
        res == Ok::<T, E>(r),
{
    expect_ok(res, "Attempted to call `unwrap_ok` on an `Err` variant")
}

/// Takes the error out of an `Err`, which the caller must know it holds.
pub fn unwrap_err<T, E>(res: Result<T, E>) -> (r: E)
    requires
        res is Err,
    ensures
        res == Err::<T, E>(r),
{
    expect_err(res, "Attempted to call `unwrap_err` on an `Ok` variant")
}

/// Like [`unwrap_ok`], with the message that would describe a misuse.
pub fn expect_ok<T, E>(res: Result<T, E>, message: &str) -> (r: T)
    requires
        res is Ok,
    ensures
        res == Ok::<T, E>(r),
{
    match res {
        Ok(v) => v,
        Err(_) => unreached(),
    }
}

/// Like [`unwrap_err`], with the message that would describe a misuse.
pub fn expect_err<T, E>(res: Result<T, E>, message: &str) -> (r: E)
    requires
        res is Err,
    ensures
        res == Err::<T, E>(r),
{
    match res {
        Ok(_) => unreached(),
        Err(e) => e,
    }
}

} // verus!
