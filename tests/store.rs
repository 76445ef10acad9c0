use altius::shared::Store;
use altius::store::{Database, Lookup, PutError, PutOutcome};
use altius::table::Table;

#[test]
fn unwritten_key_is_not_found() {
    let db = Database::new();
    assert_eq!(db.get("x"), Lookup::NotFound);
    assert_eq!(db.get("anything"), Lookup::NotFound);
}

#[test]
fn read_after_write_returns_value() {
    let mut db = Database::new();
    assert_eq!(db.put("k", "v"), Ok(PutOutcome::Created));
    assert_eq!(db.get("k"), Lookup::Found(String::from("v")));
}

#[test]
fn second_write_wins() {
    let mut db = Database::new();
    db.put("k", "one").unwrap();
    assert_eq!(db.put("k", "two"), Ok(PutOutcome::Updated));
    assert_eq!(db.get("k"), Lookup::Found(String::from("two")));
    assert_eq!(db.len(), 1);
}

#[test]
fn creation_race_keeps_first_inserted_value() {
    let mut db = Database::new();
    assert!(db.create(String::from("k"), String::from("first")));
    assert!(!db.create(String::from("k"), String::from("second")));
    assert_eq!(db.get("k"), Lookup::Found(String::from("first")));
    assert_eq!(db.len(), 1);
}

#[test]
fn write_to_one_key_leaves_another_alone() {
    let mut db = Database::new();
    db.put("a", "1").unwrap();
    db.put("b", "2").unwrap();
    db.put("a", "3").unwrap();
    assert_eq!(db.get("b"), Lookup::Found(String::from("2")));
    assert_eq!(db.get("a"), Lookup::Found(String::from("3")));
}

#[test]
fn empty_key_is_refused_or_neutral() {
    let mut db = Database::new();
    assert_eq!(db.put("", "v"), Err(PutError::BadRequest));
    assert_eq!(db.get(""), Lookup::NoKeySpecified);
    assert_eq!(db.len(), 0);
}

#[test]
fn end_to_end_sequence() {
    let mut db = Database::new();
    assert_eq!(db.get("x"), Lookup::NotFound);
    assert_eq!(db.put("x", "1"), Ok(PutOutcome::Created));
    assert_eq!(db.get("x"), Lookup::Found(String::from("1")));
    assert_eq!(db.put("x", "2"), Ok(PutOutcome::Updated));
    assert_eq!(db.get("x"), Lookup::Found(String::from("2")));
}

#[test]
fn shared_store_end_to_end_sequence() {
    let store = Store::new();
    assert_eq!(store.get("x"), Lookup::NotFound);
    assert_eq!(store.put("x", "1"), Ok(PutOutcome::Created));
    assert_eq!(store.get("x"), Lookup::Found(String::from("1")));
    assert_eq!(store.put("x", "2"), Ok(PutOutcome::Updated));
    assert_eq!(store.get("x"), Lookup::Found(String::from("2")));
}

#[test]
fn shared_store_empty_key() {
    let store = Store::new();
    assert_eq!(store.put("", "v"), Err(PutError::BadRequest));
    assert_eq!(store.get(""), Lookup::NoKeySpecified);
}

#[test]
fn shared_store_keys_are_independent() {
    let store = Store::new();
    store.put("a", "1").unwrap();
    store.put("b", "2").unwrap();
    store.put("a", "3").unwrap();
    assert_eq!(store.get("b"), Lookup::Found(String::from("2")));
    assert_eq!(store.get("a"), Lookup::Found(String::from("3")));
}

#[test]
fn non_ascii_keys_and_values() {
    let mut db = Database::new();
    db.put("clé", "été").unwrap();
    assert_eq!(db.get("clé"), Lookup::Found(String::from("été")));
    assert_eq!(db.get("cle"), Lookup::NotFound);
}

#[test]
fn table_insert_get_replace() {
    let mut t: Table<u32> = Table::new();
    assert_eq!(t.len(), 0);
    assert!(t.insert_if_absent(String::from("a"), 1));
    assert!(!t.insert_if_absent(String::from("a"), 2));
    assert_eq!(t.get(&String::from("a")), Some(&1));
    t.replace(&String::from("a"), 5);
    assert_eq!(t.get(&String::from("a")), Some(&5));
    assert_eq!(t.get(&String::from("b")), None);
    assert_eq!(t.len(), 1);
}
