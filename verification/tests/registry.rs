use easy_parallel::Parallel;

#[test]
fn add_preserves_submission_order() {
    let registry = Parallel::new().add(7u64).add(8).add(9);
    assert_eq!(registry.len(), 3);
    assert_eq!(registry.into_units(), vec![7, 8, 9]);
}

#[test]
fn each_appends_one_unit_per_item_in_item_order() {
    let registry = Parallel::new().each(vec![10i64, 20, 30], |n| n * n);
    assert_eq!(registry.into_units(), vec![100, 400, 900]);
}

#[test]
fn each_appends_after_already_added_units() {
    let registry = Parallel::new().add(1i32).each(vec![2, 3], |n| n);
    assert_eq!(registry.into_units(), vec![1, 2, 3]);
}

#[test]
fn each_with_no_items_adds_nothing() {
    let registry: Parallel<i32> = Parallel::new().each(Vec::new(), |n| n);
    assert_eq!(registry.len(), 0);
}

#[test]
fn split_last_detaches_newest_unit() {
    let (rest, last) = Parallel::new().add(4u8).add(9).split_last();
    assert_eq!(last, Some(9));
    assert_eq!(rest.into_units(), vec![4]);
}

#[test]
fn split_last_on_empty_registry() {
    let (rest, last) = Parallel::<u8>::new().split_last();
    assert!(last.is_none());
    assert_eq!(rest.len(), 0);
}

#[test]
fn default_is_empty() {
    let registry: Parallel<u8> = Parallel::default();
    assert_eq!(registry.len(), 0);
}
