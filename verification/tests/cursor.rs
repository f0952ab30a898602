use channel_copier::cursor::{page_cursor, page_hash, Cursor};

#[test]
fn hash_of_ids() {
    assert_eq!(page_hash(&vec![]), Some(0));
    assert_eq!(page_hash(&vec![1]), Some(1));
    assert_eq!(page_hash(&vec![-5]), Some(-5));
    assert_eq!(page_hash(&vec![1, 2]), Some(36507222019));
    assert_eq!(page_hash(&vec![10, 7, 3]), Some(5652386609791635));
    assert_eq!(page_hash(&vec![30, 20, 10]), Some(16956056022779834));
}

#[test]
fn hash_depends_on_the_order() {
    assert_ne!(page_hash(&vec![12, 11]), page_hash(&vec![11, 12]));
}

#[test]
fn hash_up_to_the_limit() {
    assert_eq!(page_hash(&vec![1722851097, 735287492, 280374405]), Some(i64::MAX));
    assert_eq!(page_hash(&vec![1722851097, 735287492, 280374406]), None);
    assert_eq!(page_hash(&vec![1722851097, 735287492, 280374406, 1]), None);
}

#[test]
fn cursor_after_a_page() {
    assert_eq!(
        page_cursor(&vec![12, 11]),
        Some(Cursor { offset_id: 13, hash: 438086664215 })
    );
}

#[test]
fn cursor_after_an_empty_page() {
    assert_eq!(page_cursor(&vec![]), Some(Cursor { offset_id: 1, hash: 0 }));
}

#[test]
fn cursor_overflows() {
    assert_eq!(page_cursor(&vec![i32::MAX]), None);
    assert_eq!(page_cursor(&vec![1722851097, 735287492, 280374406]), None);
}
