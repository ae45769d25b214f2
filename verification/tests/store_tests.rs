use miniredis::Database;
use miniredis::Record;

#[test]
fn test_record_new_without_expiry() {
    let r = Record::new(b"k".to_vec(), b"v".to_vec(), None, 123);
    assert_eq!(r.key.as_slice(), b"k");
    assert_eq!(r.value.as_slice(), b"v");
    assert_eq!(r.expiry, None);
    assert!(!r.is_expired(i64::MAX));
}

#[test]
fn test_record_new_with_expiry() {
    let r = Record::new(b"k".to_vec(), b"v".to_vec(), Some(100), 1_000);
    assert_eq!(r.expiry, Some(1_100));
    assert!(!r.is_expired(1_000));
    assert!(!r.is_expired(1_100));
    assert!(r.is_expired(1_101));
}

#[test]
fn test_record_expiry_saturates() {
    let r = Record::new(b"k".to_vec(), b"v".to_vec(), Some(i64::MAX), 1_000);
    assert_eq!(r.expiry, Some(i64::MAX));
    assert!(!r.is_expired(i64::MAX));
}

#[test]
fn test_database_insert_and_get() {
    let mut db = Database::new();
    db.insert(Record::new(b"hey".to_vec(), b"world".to_vec(), None, 0));
    let rec = db.get(b"hey", 0).expect("the key was just written");
    assert_eq!(rec.value.as_slice(), b"world");
    assert!(db.get(b"other", 0).is_none());
}

#[test]
fn test_database_overwrite() {
    let mut db = Database::new();
    db.insert(Record::new(b"k".to_vec(), b"v1".to_vec(), None, 0));
    db.insert(Record::new(b"k".to_vec(), b"v2".to_vec(), None, 1));
    let rec = db.get(b"k", 2).expect("the key was just written");
    assert_eq!(rec.value.as_slice(), b"v2");
}

#[test]
fn test_database_expired_read_behaves_as_absent() {
    let mut db = Database::new();
    db.insert(Record::new(b"k".to_vec(), b"v".to_vec(), Some(50), 1_000));
    assert!(db.get(b"k", 1_050).is_some());
    assert!(db.get(b"k", 1_051).is_none());
    assert!(db.get(b"k", 1_051).is_none());
    db.insert(Record::new(b"k".to_vec(), b"v2".to_vec(), None, 2_000));
    let rec = db.get(b"k", 9_000).expect("the overwrite removed the expiry");
    assert_eq!(rec.value.as_slice(), b"v2");
}
