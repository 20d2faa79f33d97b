//! Access to the contents of a `ManuallyDrop`.

use core::mem::ManuallyDrop;
use core::ops::{Deref, DerefMut};
use vstd::prelude::*;
use vstd::std_specs::manually_drop::ManuallyDropAdditionalFns;

verus! {

/// Relies on `<ManuallyDrop<T> as DerefMut>::deref_mut`: the reference it hands
/// out is to the value that the `ManuallyDrop` holds, and what is written
/// through it is what the `ManuallyDrop` holds afterwards.
#[verifier::external_body]
fn deref_man_drop_mut<T>(man: &mut ManuallyDrop<T>) -> (r: &mut T)
    ensures
        *r == old(man)@,
        final(man)@ == *final(r),
{
    man.deref_mut()
}

/// Gets a reference to the contents of a `ManuallyDrop`.
pub fn man_drop_ref<T>(man: &ManuallyDrop<T>) -> (r: &T)
    ensures
        *r == man@,
{
    man.deref()
}

/// Gets a mutable reference to the contents of a `ManuallyDrop`; what is
/// written through it is what the `ManuallyDrop` holds afterwards.
pub fn man_drop_mut<T>(man: &mut ManuallyDrop<T>) -> (r: &mut T)
    ensures
        *r == old(man)@,
        final(man)@ == *final(r),
{
    deref_man_drop_mut(man)
}

} // verus!
