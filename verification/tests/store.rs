use auth::store::MemoryHash;

#[test]
fn a_new_hash_is_empty() {
    let hash = MemoryHash::new();
    assert_eq!(hash.len(), 0);
    assert!(hash.scan_all().is_empty());
    assert_eq!(hash.get_one("k"), None);
}

#[test]
fn insert_if_absent_stores_once() {
    let mut hash = MemoryHash::new();
    assert!(hash.insert_if_absent("k", "first"));
    assert!(!hash.insert_if_absent("k", "second"));
    assert_eq!(hash.len(), 1);
    assert_eq!(hash.get_one("k"), Some("first".to_string()));
}

#[test]
fn keys_are_compared_exactly() {
    let mut hash = MemoryHash::new();
    assert!(hash.insert_if_absent("Key", "a"));
    assert!(hash.insert_if_absent("key", "b"));
    assert!(hash.insert_if_absent("key ", "c"));
    assert!(hash.insert_if_absent("", "d"));
    assert_eq!(hash.len(), 4);
    assert_eq!(hash.get_one("key"), Some("b".to_string()));
    assert_eq!(hash.get_one(""), Some("d".to_string()));
}

#[test]
fn delete_one_says_whether_the_key_was_there() {
    let mut hash = MemoryHash::new();
    hash.insert_if_absent("a", "1");
    hash.insert_if_absent("b", "2");
    assert!(hash.delete_one("a"));
    assert!(!hash.delete_one("a"));
    assert!(!hash.delete_one("zz"));
    assert_eq!(hash.scan_all(), vec![("b".to_string(), "2".to_string())]);
}

#[test]
fn bulk_delete_counts_what_it_removed() {
    let mut hash = MemoryHash::new();
    for k in ["a", "b", "c", "d", "e"] {
        hash.insert_if_absent(k, k);
    }
    let keys = vec!["b".to_string(), "d".to_string(), "x".to_string(), "b".to_string()];
    assert_eq!(hash.bulk_delete(&keys), 2);
    assert_eq!(
        hash.scan_all(),
        vec![
            ("a".to_string(), "a".to_string()),
            ("c".to_string(), "c".to_string()),
            ("e".to_string(), "e".to_string()),
        ]
    );
    assert_eq!(hash.bulk_delete(&Vec::new()), 0);
    assert_eq!(hash.len(), 3);
}

#[test]
fn the_placeholder_key_deletes_nothing_that_is_real() {
    let mut hash = MemoryHash::new();
    hash.insert_if_absent("real", "1");
    assert_eq!(hash.bulk_delete(&vec![String::new(), String::new()]), 0);
    assert_eq!(hash.len(), 1);
}

#[test]
fn scan_all_yields_the_fields_in_insertion_order() {
    let mut hash = MemoryHash::new();
    hash.insert_if_absent("z", "1");
    hash.insert_if_absent("a", "2");
    hash.insert_if_absent("m", "3");
    assert_eq!(
        hash.scan_all(),
        vec![
            ("z".to_string(), "1".to_string()),
            ("a".to_string(), "2".to_string()),
            ("m".to_string(), "3".to_string()),
        ]
    );
}
