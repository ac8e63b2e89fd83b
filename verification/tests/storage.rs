use dbperf::error::DatabaseError;
use dbperf::local::{seed_record, InMemoryDatabase};
use dbperf::models::RpmuHistoryInterval;
use dbperf::postgres::latest_timestamp;
use dbperf::rocks::{record_key_bytes, record_value_bytes};
use dbperf::timer::{Elapsed, Timer};

fn record(count: f64, end_time: f64, start_time: f64, units: f64) -> RpmuHistoryInterval {
    RpmuHistoryInterval {
        count: count.to_bits(),
        end_time: end_time.to_bits(),
        start_time: start_time.to_bits(),
        units: units.to_bits(),
    }
}

#[test]
fn seed_record_holds_the_dummy_values() {
    let r = seed_record();
    assert_eq!(f64::from_bits(r.start_time), 1669918678.0);
    assert_eq!(f64::from_bits(r.count), 1669918678.0);
    assert_eq!(f64::from_bits(r.end_time), 1234.0);
    assert_eq!(f64::from_bits(r.units), 4.0);
}

#[test]
fn init_stores_the_seed_record_only() {
    let db = InMemoryDatabase::init().unwrap();
    assert_eq!(db.len(), 1);
    assert_eq!(db.get(1669918678), Some(seed_record()));
}

#[test]
fn insert_one_stores_under_the_integer_part_of_the_start_time() {
    let mut db = InMemoryDatabase::new();
    let r = record(10.0, 200.0, 100.75, 3.0);
    assert!(db.insert_one(&r).is_ok());
    assert_eq!(db.get(100), Some(r));
    assert_eq!(db.get(101), None);
    assert_eq!(db.len(), 1);
}

#[test]
fn insert_one_replaces_a_record_with_the_same_key() {
    let mut db = InMemoryDatabase::new();
    let a = record(1.0, 2.0, 50.2, 3.0);
    let b = record(7.0, 8.0, 50.9, 9.0);
    db.insert_one(&a).unwrap();
    db.insert_one(&b).unwrap();
    assert_eq!(db.len(), 1);
    assert_eq!(db.get(50), Some(b));
}

#[test]
fn insert_many_keeps_the_last_record_per_key() {
    let mut db = InMemoryDatabase::init().unwrap();
    let a = record(1.0, 2.0, 10.0, 3.0);
    let b = record(4.0, 5.0, 20.0, 6.0);
    let c = record(7.0, 8.0, 10.5, 9.0);
    assert!(db.insert_many(vec![a, b, c]).is_ok());
    assert_eq!(db.len(), 3);
    assert_eq!(db.get(10), Some(c));
    assert_eq!(db.get(20), Some(b));
    assert_eq!(db.get(1669918678), Some(seed_record()));
}

#[test]
fn insert_many_equals_repeated_insert_one() {
    let items = vec![
        record(1.0, 2.0, 3.0, 4.0),
        record(5.0, -6.0, 3.9, 8.0),
        record(9.0, 10.0, -11.0, 12.0),
        record(13.0, 14.0, f64::NAN, 16.0),
    ];
    let mut batch = InMemoryDatabase::new();
    batch.insert_many(items.clone()).unwrap();
    let mut single = InMemoryDatabase::new();
    for r in &items {
        single.insert_one(r).unwrap();
    }
    assert_eq!(batch.len(), single.len());
    for k in [0u64, 3, 4, u64::MAX] {
        assert_eq!(batch.get(k), single.get(k));
    }
    // negative and NaN start times both land on key 0; the NaN one was last
    assert_eq!(batch.get(0).map(|r| r.count), Some(13.0f64.to_bits()));
}

#[test]
fn insert_many_of_nothing_changes_nothing() {
    let mut db = InMemoryDatabase::init().unwrap();
    db.insert_many(Vec::new()).unwrap();
    assert_eq!(db.len(), 1);
}

#[test]
fn rocks_key_is_the_encoded_start_time() {
    let r = record(1669918678.0, 1234.0, 1669918678.0, 4.0);
    let key = record_key_bytes(&r);
    assert_eq!(key, 1669918678.0f64.to_le_bytes().to_vec());
    assert_eq!(key, bincode::serialize(&1669918678.0f64).unwrap());
}

#[test]
fn rocks_value_is_the_bincode_encoding_of_the_record() {
    let r = record(12.5, 1234.0, 1669918678.0, -4.25);
    let value = record_value_bytes(&r);
    let expected = bincode::serialize(&(12.5f64, 1234.0f64, 1669918678.0f64, -4.25f64)).unwrap();
    assert_eq!(value, expected);
    assert_eq!(value.len(), 32);
    assert_eq!(value[16..24].to_vec(), record_key_bytes(&r));
}

#[test]
fn latest_timestamp_truncates_the_maximum() {
    assert_eq!(latest_timestamp(Some(1669918678.9f64.to_bits())).unwrap(), 1669918678);
    assert_eq!(latest_timestamp(Some((-3.0f64).to_bits())).unwrap(), 0);
}

#[test]
fn latest_timestamp_of_an_empty_table_is_unknown() {
    assert!(matches!(latest_timestamp(None), Err(DatabaseError::UnknownError)));
}

#[test]
fn error_messages_name_the_backend() {
    let cases = vec![
        (DatabaseError::MongoDBError("x".to_string()), "MongoDB error: x"),
        (DatabaseError::PostgresError("y".to_string()), "PostgreSQL error: y"),
        (DatabaseError::SurrealDBError("z".to_string()), "SurrealDB error : z"),
        (DatabaseError::LevelDBError("w".to_string()), "LevelDB error : w"),
        (DatabaseError::RocksDBError("v".to_string()), "RocksDB error : v"),
        (DatabaseError::UnknownError, "Unknown error"),
    ];
    for (e, text) in cases {
        assert_eq!(e.message(), text);
    }
}

#[test]
fn idle_timer_reads_zero() {
    let mut t = Timer::init();
    assert_eq!(t.stop(), Elapsed { secs: 0, nanos: 0 });
}

#[test]
fn stopped_timer_reads_zero_again() {
    let mut t = Timer::init();
    t.start();
    let first = t.stop();
    assert!(first.nanos < 1_000_000_000);
    assert_eq!(first.secs, 0);
    assert_eq!(t.stop(), Elapsed::zero());
}

#[test]
fn whole_seconds_drop_the_fraction() {
    let e = Elapsed { secs: 7, nanos: 999_999_999 };
    assert_eq!(e.whole_seconds(), 7);
}

#[test]
fn empty_batches_are_not_sent() {
    assert_eq!(dbperf::batch::skipped_batch(0), Some(0));
    assert_eq!(dbperf::batch::skipped_batch(1), None);
    assert_eq!(dbperf::batch::skipped_batch(400), None);
}
