use sitecore::paging::{apply_window, page_window, PageError, PageRule, Window};

const TWENTY: PageRule = PageRule { default_limit: 20, zero_means_all: false };
const ALL: PageRule = PageRule { default_limit: 0, zero_means_all: true };

#[test]
fn defaults_to_first_page_of_twenty() {
    assert_eq!(page_window(None, None, TWENTY), Ok(Window { offset: 0, limit: Some(20) }));
}

#[test]
fn offset_is_page_minus_one_times_limit() {
    assert_eq!(page_window(Some(3), Some(10), TWENTY), Ok(Window { offset: 20, limit: Some(10) }));
    assert_eq!(page_window(Some(2), None, TWENTY), Ok(Window { offset: 20, limit: Some(20) }));
}

#[test]
fn pages_below_one_are_served_as_page_one() {
    assert_eq!(page_window(Some(0), Some(10), TWENTY), Ok(Window { offset: 0, limit: Some(10) }));
    assert_eq!(page_window(Some(-5), Some(10), TWENTY), Ok(Window { offset: 0, limit: Some(10) }));
}

#[test]
fn negative_limit_is_refused() {
    assert_eq!(page_window(Some(1), Some(-1), TWENTY), Err(PageError::NegativeLimit));
}

#[test]
fn zero_limit_is_unbounded_only_where_the_rule_says() {
    assert_eq!(page_window(Some(4), None, ALL), Ok(Window { offset: 0, limit: None }));
    assert_eq!(page_window(Some(4), Some(0), ALL), Ok(Window { offset: 0, limit: None }));
    assert_eq!(page_window(Some(2), Some(5), ALL), Ok(Window { offset: 5, limit: Some(5) }));
    assert_eq!(page_window(Some(3), Some(0), TWENTY), Ok(Window { offset: 0, limit: Some(0) }));
}

#[test]
fn largest_page_and_limit_do_not_overflow() {
    let w = page_window(Some(i32::MAX), Some(i32::MAX), TWENTY).unwrap();
    assert_eq!(w.offset, (i32::MAX as u64 - 1) * i32::MAX as u64);
}

#[test]
fn windows_cut_the_ordered_ids() {
    let ids: Vec<u64> = (1..=7).collect();
    assert_eq!(apply_window(&ids, Window { offset: 0, limit: Some(3) }), vec![1, 2, 3]);
    assert_eq!(apply_window(&ids, Window { offset: 3, limit: Some(3) }), vec![4, 5, 6]);
    assert_eq!(apply_window(&ids, Window { offset: 6, limit: Some(3) }), vec![7]);
    assert_eq!(apply_window(&ids, Window { offset: 9, limit: Some(3) }), Vec::<u64>::new());
    assert_eq!(apply_window(&ids, Window { offset: 2, limit: None }), vec![3, 4, 5, 6, 7]);
    assert_eq!(apply_window(&ids, Window { offset: 2, limit: Some(u64::MAX) }), vec![3, 4, 5, 6, 7]);
}
