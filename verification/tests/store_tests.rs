use typed_db::{DbError, OpenEvent, DB};

fn open_db(dir: &tempfile::TempDir, name: &str) -> DB {
    let path = dir.path().join(name);
    DB::from_path(path.to_str().unwrap()).expect("open failed")
}

#[test]
fn round_trip_u32() {
    let dir = tempfile::tempdir().unwrap();
    let mut db = open_db(&dir, "db");
    db.store_encodable(b"table_a_", b"key1", &0x01020304u32).unwrap();
    let got: Option<u32> = db.retrieve_decodable(b"table_a_", b"key1").unwrap();
    assert_eq!(got, Some(0x01020304u32));
}

#[test]
fn round_trip_u64() {
    let dir = tempfile::tempdir().unwrap();
    let mut db = open_db(&dir, "db");
    db.store_encodable(b"t_", b"k", &0xdead_beef_0102_0304u64).unwrap();
    let got: Option<u64> = db.retrieve_decodable(b"t_", b"k").unwrap();
    assert_eq!(got, Some(0xdead_beef_0102_0304u64));
}

#[test]
fn round_trip_keyed() {
    let dir = tempfile::tempdir().unwrap();
    let mut db = open_db(&dir, "db");
    db.store_keyed_encodable(b"t_", &7u32, &99u64).unwrap();
    let got: Option<u64> = db.retrieve_keyed_decodable(b"t_", &7u32).unwrap();
    assert_eq!(got, Some(99u64));
}

#[test]
fn overwrite_returns_latest() {
    let dir = tempfile::tempdir().unwrap();
    let mut db = open_db(&dir, "db");
    db.store_encodable(b"t_", b"k", &1u32).unwrap();
    db.store_encodable(b"t_", b"k", &2u32).unwrap();
    let got: Option<u32> = db.retrieve_decodable(b"t_", b"k").unwrap();
    assert_eq!(got, Some(2u32));
}

#[test]
fn absent_key_is_none_not_error() {
    let dir = tempfile::tempdir().unwrap();
    let mut db = open_db(&dir, "db");
    db.store_encodable(b"t_", b"other", &1u32).unwrap();
    let got: Option<u32> = db.retrieve_decodable(b"t_", b"never").unwrap();
    assert_eq!(got, None);
}

#[test]
fn namespace_isolation() {
    let dir = tempfile::tempdir().unwrap();
    let mut db = open_db(&dir, "db");
    db.store_encodable(b"pre1_", b"k", &1u32).unwrap();
    db.store_encodable(b"pre2_", b"k", &2u32).unwrap();
    let one: Option<u32> = db.retrieve_decodable(b"pre1_", b"k").unwrap();
    let two: Option<u32> = db.retrieve_decodable(b"pre2_", b"k").unwrap();
    assert_eq!(one, Some(1u32));
    assert_eq!(two, Some(2u32));
}

#[test]
fn empty_value_is_present_not_absent() {
    let dir = tempfile::tempdir().unwrap();
    let mut db = open_db(&dir, "db");
    db.store_encodable(b"t_", b"k", &()).unwrap();
    let got: Option<()> = db.retrieve_decodable(b"t_", b"k").unwrap();
    assert_eq!(got, Some(()));
    let absent: Option<()> = db.retrieve_decodable(b"t_", b"other").unwrap();
    assert_eq!(absent, None);
}

#[test]
fn decode_failure_is_decode_error() {
    let dir = tempfile::tempdir().unwrap();
    let mut db = open_db(&dir, "db");
    db.store_encodable(b"t_", b"k", &1u32).unwrap();
    let got: Result<Option<u64>, DbError> = db.retrieve_decodable(b"t_", b"k");
    assert!(matches!(got, Err(DbError::DecodeError(_))));
}

#[test]
fn prefix_scan_is_sorted_and_bounded() {
    let dir = tempfile::tempdir().unwrap();
    let mut db = open_db(&dir, "db");
    db.store_encodable(b"scan_", b"c", &3u32).unwrap();
    db.store_encodable(b"scan_", b"a", &1u32).unwrap();
    db.store_encodable(b"scan_", b"b", &2u32).unwrap();
    db.store_encodable(b"other_", b"a", &9u32).unwrap();
    let pairs = db.prefix_iterator(b"scan_").unwrap();
    let keys: Vec<Vec<u8>> = pairs.iter().map(|p| p.0.clone()).collect();
    assert_eq!(
        keys,
        vec![b"scan_a".to_vec(), b"scan_b".to_vec(), b"scan_c".to_vec()]
    );
    assert_eq!(pairs[0].1, vec![0u8, 0, 0, 1]);
    assert_eq!(pairs[1].1, vec![0u8, 0, 0, 2]);
    assert_eq!(pairs[2].1, vec![0u8, 0, 0, 3]);
}

#[test]
fn encoding_is_big_endian() {
    let dir = tempfile::tempdir().unwrap();
    let mut db = open_db(&dir, "db");
    db.store_encodable(b"enc_", b"k", &0x01020304u32).unwrap();
    let pairs = db.prefix_iterator(b"enc_").unwrap();
    assert_eq!(pairs.len(), 1);
    assert_eq!(pairs[0].0, b"enc_k".to_vec());
    assert_eq!(pairs[0].1, vec![1u8, 2, 3, 4]);
}

#[test]
fn reopen_exposes_stored_data() {
    let dir = tempfile::tempdir().unwrap();
    let path = dir.path().join("db");
    let path_str = path.to_str().unwrap();
    {
        let mut db = DB::from_path(path_str).unwrap();
        db.store_encodable(b"t_", b"k", &42u32).unwrap();
        db.flush().unwrap();
    }
    let db = DB::from_path(path_str).unwrap();
    let got: Option<u32> = db.retrieve_decodable(b"t_", b"k").unwrap();
    assert_eq!(got, Some(42u32));
}

#[test]
fn creating_event_observed_exactly_once() {
    let dir = tempfile::tempdir().unwrap();
    let path = dir.path().join("db");
    let path_str = path.to_str().unwrap();
    {
        let (db, event) = DB::from_path_observed(path_str).unwrap();
        assert_eq!(event, OpenEvent::CreatingNew);
        db.flush().unwrap();
    }
    let (_db, event) = DB::from_path_observed(path_str).unwrap();
    assert_eq!(event, OpenEvent::OpeningExisting);
}

#[test]
fn missing_parent_is_invalid_db_path() {
    let dir = tempfile::tempdir().unwrap();
    let path = dir.path().join("no_such_parent").join("db");
    let path_str = path.to_str().unwrap().to_string();
    let r = DB::from_path(&path_str);
    match r {
        Err(DbError::InvalidDbPath(_cause, supplied)) => assert_eq!(supplied, path_str),
        other => panic!("expected InvalidDbPath, got {:?}", other.map(|_| ())),
    }
}

#[test]
fn second_open_of_locked_store_is_opening_error() {
    let dir = tempfile::tempdir().unwrap();
    let path = dir.path().join("db");
    let path_str = path.to_str().unwrap().to_string();
    let _held = DB::from_path(&path_str).unwrap();
    let r = DB::from_path(&path_str);
    match r {
        Err(DbError::OpeningError { path: p, .. }) => assert_eq!(p, path_str),
        other => panic!("expected OpeningError, got {:?}", other.map(|_| ())),
    }
}
