use sitecore::paging::Window;
use sitecore::repository::{ListQuery, Order, RepoError, Table};

fn all() -> Window {
    Window { offset: 0, limit: None }
}

fn query(window: Window, search: Option<&str>, flag: Option<bool>, order: Order) -> ListQuery {
    ListQuery { window, search: search.map(|s| s.to_string()), flag, order }
}

fn texts(items: &[&str]) -> Vec<String> {
    items.iter().map(|s| s.to_string()).collect()
}

#[test]
fn create_search_delete_restore_scenario() {
    let mut t = Table::new();
    let id = t.create(0, true, texts(&["A"])).unwrap();
    let q = query(all(), Some("a"), None, Order::IdDesc);
    assert_eq!(t.list(&q), vec![id]);
    assert_eq!(t.soft_delete(id, 1000), Ok(()));
    assert_eq!(t.list(&q), Vec::<u64>::new());
    assert_eq!(t.restore(id), Ok(()));
    assert_eq!(t.list(&q), vec![id]);
}

#[test]
fn deleting_twice_succeeds_and_stays_hidden() {
    let mut t = Table::new();
    let a = t.create(0, true, texts(&["first"])).unwrap();
    let b = t.create(0, true, texts(&["second"])).unwrap();
    assert_eq!(t.soft_delete(a, 50), Ok(()));
    assert_eq!(t.soft_delete(a, 50), Ok(()));
    assert_eq!(t.get(a).map(|r| r.id), None);
    let q = query(all(), None, None, Order::IdDesc);
    assert_eq!(t.list(&q), vec![b]);
    assert_eq!(t.restore(a), Ok(()));
    assert_eq!(t.list(&q), vec![b, a]);
    assert_eq!(t.get(a).map(|r| r.deleted_at), Some(None));
}

#[test]
fn unknown_ids_are_not_found() {
    let mut t = Table::new();
    assert_eq!(t.soft_delete(9, 1), Err(RepoError::NotFound));
    assert_eq!(t.restore(9), Err(RepoError::NotFound));
    assert_eq!(t.update(9, 0, false, Vec::new()), Err(RepoError::NotFound));
    assert!(t.get(9).is_none());
}

#[test]
fn unmatched_search_lists_nothing() {
    let mut t = Table::new();
    t.create(0, true, texts(&["Rust notes", "about ownership"])).unwrap();
    t.create(0, true, texts(&["Gardening"])).unwrap();
    let q = query(all(), Some("zebra"), None, Order::IdDesc);
    assert_eq!(t.list(&q), Vec::<u64>::new());
}

#[test]
fn search_ignores_case_and_looks_at_every_column() {
    let mut t = Table::new();
    let a = t.create(0, true, texts(&["Rust notes", "about OWNERSHIP"])).unwrap();
    let b = t.create(0, true, texts(&["Gardening", "tomatoes"])).unwrap();
    assert_eq!(t.list(&query(all(), Some("owner"), None, Order::IdDesc)), vec![a]);
    assert_eq!(t.list(&query(all(), Some("RUST"), None, Order::IdDesc)), vec![a]);
    assert_eq!(t.list(&query(all(), Some("o"), None, Order::IdDesc)), vec![b, a]);
}

#[test]
fn newest_first_and_pages_follow_each_other() {
    let mut t = Table::new();
    let mut ids = Vec::new();
    for i in 0..7 {
        ids.push(t.create(0, true, vec![format!("row {}", i)]).unwrap());
    }
    ids.reverse();
    let page = |n: u64| query(Window { offset: (n - 1) * 3, limit: Some(3) }, None, None, Order::IdDesc);
    let first = t.list(&page(1));
    let second = t.list(&page(2));
    let third = t.list(&page(3));
    assert_eq!(first, t.list(&page(1)));
    assert_eq!(first, ids[0..3].to_vec());
    assert_eq!(second, ids[3..6].to_vec());
    assert_eq!(third, ids[6..7].to_vec());
    let mut joined = first.clone();
    joined.extend(second);
    joined.extend(third);
    assert_eq!(joined, ids);
}

#[test]
fn manual_order_descends_with_ties_broken_by_id() {
    let mut t = Table::new();
    let a = t.create(5, true, texts(&["a"])).unwrap();
    let b = t.create(9, true, texts(&["b"])).unwrap();
    let c = t.create(5, true, texts(&["c"])).unwrap();
    let d = t.create(-1, true, texts(&["d"])).unwrap();
    assert_eq!(t.list(&query(all(), None, None, Order::RankDesc)), vec![b, c, a, d]);
    assert_eq!(t.update(d, 10, true, texts(&["d"])), Ok(()));
    assert_eq!(t.list(&query(all(), None, None, Order::RankDesc)), vec![d, b, c, a]);
}

#[test]
fn flag_filter_keeps_matching_rows() {
    let mut t = Table::new();
    let a = t.create(0, true, texts(&["x"])).unwrap();
    let b = t.create(0, false, texts(&["y"])).unwrap();
    assert_eq!(t.list(&query(all(), None, Some(true), Order::IdDesc)), vec![a]);
    assert_eq!(t.list(&query(all(), None, Some(false), Order::IdDesc)), vec![b]);
    assert_eq!(t.list(&query(all(), None, None, Order::IdDesc)), vec![b, a]);
}

#[test]
fn like_pattern_escapes_wildcards() {
    let q = query(all(), Some("50%_off\\"), None, Order::IdDesc);
    assert_eq!(q.like_pattern(), Some("%50\\%\\_off\\\\%".to_string()));
    let q = query(all(), Some("Rust"), None, Order::IdDesc);
    assert_eq!(q.like_pattern(), Some("%Rust%".to_string()));
    assert_eq!(query(all(), None, None, Order::IdDesc).like_pattern(), None);
}

#[test]
fn second_delete_at_a_later_time_succeeds() {
    let mut t = Table::new();
    let a = t.create(0, true, texts(&["note"])).unwrap();
    assert_eq!(t.soft_delete(a, 50), Ok(()));
    assert_eq!(t.soft_delete(a, 90), Ok(()));
    assert_eq!(t.list(&query(all(), None, None, Order::IdDesc)), Vec::<u64>::new());
    assert!(t.get(a).is_none());
}

#[test]
fn update_keeps_the_deletion_mark() {
    let mut t = Table::new();
    let a = t.create(1, true, texts(&["old title"])).unwrap();
    assert_eq!(t.soft_delete(a, 7), Ok(()));
    assert_eq!(t.update(a, 2, true, texts(&["new title"])), Ok(()));
    assert!(t.get(a).is_none());
    assert_eq!(t.restore(a), Ok(()));
    let row = t.get(a).unwrap();
    assert_eq!((row.rank, row.columns.clone()), (2, texts(&["new title"])));
    assert_eq!(t.list(&query(all(), Some("NEW"), None, Order::RankDesc)), vec![a]);
}
