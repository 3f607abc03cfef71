use zeron::console::handles_to_restore;

#[test]
fn redirected_handles_are_restored() {
    assert_eq!(handles_to_restore(true, &vec![0, 12, -1]), vec![1]);
    assert_eq!(handles_to_restore(true, &vec![4, 8, -2]), vec![0, 1, 2]);
    assert_eq!(handles_to_restore(true, &vec![0, 0, -1]), Vec::<usize>::new());
    assert_eq!(handles_to_restore(false, &vec![4, 8, 12]), Vec::<usize>::new());
}
