use const_util::mem::{man_drop_mut, man_drop_ref};
use std::mem::ManuallyDrop;

#[test]
fn contents_of_manually_drop() {
    assert_eq!(man_drop_ref(&ManuallyDrop::new(1)), &1);
    assert_eq!(man_drop_mut(&mut ManuallyDrop::new(1)), &mut 1);
    let mut held = ManuallyDrop::new(String::from("ABC"));
    man_drop_mut(&mut held).push('D');
    assert_eq!(man_drop_ref(&held), "ABCD");
    assert_eq!(ManuallyDrop::into_inner(held), "ABCD");
}
