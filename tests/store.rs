use discuss_code::range::CommentRange;
use discuss_code::store::{Store, StoreError};

fn s(x: &str) -> String {
    x.to_string()
}

#[test]
fn add_assigns_increasing_ids() {
    let mut store = Store::new();
    assert_eq!(store.add("a.txt", 1, 2, "x"), Ok(1));
    assert_eq!(store.add("a.txt", 3, 4, "y"), Ok(2));
    assert_eq!(store.add("b.txt", 1, 1, "z"), Ok(3));
}

#[test]
fn add_then_find_yields_text() {
    let mut store = Store::new();
    store.add("f", 5, 8, "foo").unwrap();
    let found = store.find_containing(&s("f"), 6).unwrap();
    assert_eq!(found.text, "foo");
    assert_eq!((found.start, found.end), (5, 8));
}

#[test]
fn find_at_interval_ends_and_outside() {
    let mut store = Store::new();
    store.add("f", 5, 8, "foo").unwrap();
    assert!(store.find_containing(&s("f"), 5).is_some());
    assert!(store.find_containing(&s("f"), 8).is_some());
    assert!(store.find_containing(&s("f"), 4).is_none());
    assert!(store.find_containing(&s("f"), 9).is_none());
    assert!(store.find_containing(&s("g"), 6).is_none());
}

#[test]
fn find_prefers_smallest_id() {
    let mut store = Store::new();
    store.add("f", 1, 10, "first").unwrap();
    store.add("f", 3, 6, "second").unwrap();
    let found = store.find_containing(&s("f"), 4).unwrap();
    assert_eq!(found.id, 1);
    assert_eq!(found.text, "first");
    let later = store.find_containing(&s("f"), 9).unwrap();
    assert_eq!(later.id, 1);
}

#[test]
fn find_on_empty_store() {
    let store = Store::new();
    assert!(store.find_containing(&s("f"), 1).is_none());
    assert!(store.list_ranges(&s("f")).is_empty());
}

#[test]
fn delete_returns_every_covering_range() {
    let mut store = Store::new();
    store.add("f", 1, 10, "a").unwrap();
    store.add("f", 20, 30, "b").unwrap();
    store.add("f", 5, 6, "c").unwrap();
    store.add("g", 1, 10, "d").unwrap();
    let removed = store.delete_containing(&s("f"), 5);
    let ids: Vec<i64> = removed.iter().map(|r| r.id).collect();
    assert_eq!(ids, vec![1, 3]);
    assert!(store.find_containing(&s("f"), 5).is_none());
    assert_eq!(store.find_containing(&s("f"), 25).unwrap().text, "b");
    assert_eq!(store.find_containing(&s("g"), 5).unwrap().text, "d");
}

#[test]
fn delete_with_no_match_keeps_all() {
    let mut store = Store::new();
    store.add("f", 1, 2, "a").unwrap();
    assert!(store.delete_containing(&s("f"), 3).is_empty());
    assert_eq!(store.list_ranges(&s("f")).len(), 1);
}

#[test]
fn ids_are_not_reused_after_delete() {
    let mut store = Store::new();
    store.add("f", 1, 2, "a").unwrap();
    store.delete_containing(&s("f"), 1);
    assert_eq!(store.add("f", 1, 2, "b"), Ok(2));
}

#[test]
fn list_ranges_of_one_file_in_id_order() {
    let mut store = Store::new();
    store.add("f", 9, 9, "a").unwrap();
    store.add("g", 1, 2, "b").unwrap();
    store.add("f", 1, 3, "c").unwrap();
    let listed = store.list_ranges(&s("f"));
    let spans: Vec<(i64, i64, i64)> = listed.iter().map(|r| (r.id, r.start, r.end)).collect();
    assert_eq!(spans, vec![(1, 9, 9), (3, 1, 3)]);
}

#[test]
fn load_accepts_ascending_ids() {
    let rows = vec![CommentRange::new(2, "f", 1, 3, "a"), CommentRange::new(7, "f", 2, 2, "b")];
    let mut store = Store::load(rows).unwrap();
    assert_eq!(store.find_containing(&s("f"), 2).unwrap().id, 2);
    assert_eq!(store.add("f", 1, 1, "c"), Ok(8));
}

#[test]
fn load_refuses_out_of_order_ids() {
    let rows = vec![CommentRange::new(7, "f", 1, 3, "a"), CommentRange::new(2, "f", 2, 2, "b")];
    assert!(Store::load(rows).is_none());
    assert!(Store::load(vec![CommentRange::new(0, "f", 1, 1, "a")]).is_none());
    assert!(Store::load(vec![CommentRange::new(4, "f", 1, 1, "a"), CommentRange::new(4, "f", 1, 1, "b")]).is_none());
}

#[test]
fn add_fails_when_ids_run_out() {
    let mut store = Store::new();
    assert!(store.restore(CommentRange::new(i64::MAX - 1, "f", 1, 1, "a")));
    assert_eq!(store.add("f", 2, 2, "b"), Err(StoreError::IdsExhausted));
    assert_eq!(store.list_ranges(&s("f")).len(), 1);
}

#[test]
fn restore_refuses_old_id() {
    let mut store = Store::new();
    store.add("f", 1, 1, "a").unwrap();
    assert!(!store.restore(CommentRange::new(1, "f", 2, 2, "b")));
    assert!(store.restore(CommentRange::new(5, "f", 2, 2, "b")));
    assert_eq!(store.add("f", 3, 3, "c"), Ok(6));
}

#[test]
fn covers_line_checks_file_and_interval() {
    let r = CommentRange::new(1, "f", 5, 8, "t");
    assert!(r.covers_line(&s("f"), 5));
    assert!(!r.covers_line(&s("g"), 5));
    assert!(!r.covers_line(&s("f"), 9));
    assert_eq!(r.duplicate(), r);
}
