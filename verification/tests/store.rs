use todo_service::items::TodoItems;

#[test]
fn new_store_is_empty() {
    let store = TodoItems::new();
    assert!(store.list().is_empty());
    assert!(store.has_capacity());
}

#[test]
fn insert_issues_sequential_ids() {
    let mut store = TodoItems::new();
    assert_eq!(store.insert(String::from("a")), 0);
    assert_eq!(store.insert(String::from("b")), 1);
    assert_eq!(store.insert(String::from("c")), 2);
}

#[test]
fn ids_keep_increasing_after_removal() {
    let mut store = TodoItems::new();
    let a = store.insert(String::from("first"));
    let b = store.insert(String::from("second"));
    assert!(a < b);
    assert_eq!(store.remove(a), Some(String::from("first")));
    let c = store.insert(String::from("third"));
    assert!(b < c);
    assert_eq!(c, 2);
}

#[test]
fn remove_returns_title_exactly_once() {
    let mut store = TodoItems::new();
    let id = store.insert(String::from("only"));
    assert_eq!(store.remove(id), Some(String::from("only")));
    assert_eq!(store.remove(id), None);
}

#[test]
fn remove_of_unknown_id_returns_none() {
    let mut store = TodoItems::new();
    assert_eq!(store.remove(7), None);
    store.insert(String::from("x"));
    assert_eq!(store.remove(999), None);
}

#[test]
fn list_has_inserts_minus_removals() {
    let mut store = TodoItems::new();
    let a = store.insert(String::from("one"));
    let b = store.insert(String::from("two"));
    let c = store.insert(String::from("three"));
    assert_eq!(store.remove(b), Some(String::from("two")));
    let listed = store.list();
    assert_eq!(listed.len(), 2);
    assert_eq!(listed[0], (a, String::from("one")));
    assert_eq!(listed[1], (c, String::from("three")));
}

#[test]
fn list_is_a_snapshot() {
    let mut store = TodoItems::new();
    store.insert(String::from("kept"));
    let listed = store.list();
    store.remove(0);
    assert_eq!(listed, vec![(0, String::from("kept"))]);
    assert!(store.list().is_empty());
}

#[test]
fn empty_title_is_accepted() {
    let mut store = TodoItems::new();
    let id = store.insert(String::new());
    assert_eq!(store.list(), vec![(id, String::new())]);
}
