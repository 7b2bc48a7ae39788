use raytracer::sort::sort_by_keys;

#[test]
fn sort_by_keys_orders_by_key() {
    let mut items = vec![10, 11, 12, 13, 14];
    sort_by_keys(&mut items, &vec![5, -3, 9, 0, 7]);
    assert_eq!(items, vec![11, 13, 10, 14, 12]);
}

#[test]
fn sort_by_keys_keeps_the_order_of_equal_keys() {
    let mut items = vec![10, 11, 12, 13, 14, 15];
    sort_by_keys(&mut items, &vec![2, 1, 2, 1, 2, 1]);
    assert_eq!(items, vec![11, 13, 15, 10, 12, 14]);
}

#[test]
fn sort_by_keys_of_nothing_and_of_one() {
    let mut none: Vec<usize> = vec![];
    sort_by_keys(&mut none, &vec![]);
    assert_eq!(none, Vec::<usize>::new());
    let mut one = vec![42];
    sort_by_keys(&mut one, &vec![-7]);
    assert_eq!(one, vec![42]);
}

#[test]
fn sort_by_keys_reverses_a_descending_list() {
    let mut items: Vec<usize> = (0..50).collect();
    let keys: Vec<i64> = (0..50).map(|k| 100 - k).collect();
    sort_by_keys(&mut items, &keys);
    let expected: Vec<usize> = (0..50).rev().collect();
    assert_eq!(items, expected);
}

#[test]
fn sort_by_keys_takes_the_extreme_keys() {
    let mut items = vec![1, 2, 3];
    sort_by_keys(&mut items, &vec![i64::MAX, i64::MIN, 0]);
    assert_eq!(items, vec![2, 3, 1]);
}

#[test]
fn sort_by_keys_may_hold_an_item_twice() {
    let mut items = vec![7, 7, 3];
    sort_by_keys(&mut items, &vec![2, 1, 0]);
    assert_eq!(items, vec![3, 7, 7]);
}
