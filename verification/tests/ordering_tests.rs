use cross_encode_rs::ordering::order_by_length;

#[test]
fn order_by_length_sorts_stably() {
    let lengths = vec![5, 1, 5, 2, 1];
    assert_eq!(order_by_length(&lengths), vec![1, 4, 3, 0, 2]);
}

#[test]
fn order_by_length_keeps_sorted_input() {
    assert_eq!(order_by_length(&vec![1, 2, 3]), vec![0, 1, 2]);
    assert_eq!(order_by_length(&vec![3, 2, 1]), vec![2, 1, 0]);
    assert_eq!(order_by_length(&vec![4, 4, 4]), vec![0, 1, 2]);
}

#[test]
fn order_by_length_of_nothing_is_empty() {
    assert!(order_by_length(&vec![]).is_empty());
}
