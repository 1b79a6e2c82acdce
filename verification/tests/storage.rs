//! The storage engine's decisions, exercised at fixed clock seconds.

use rockscached::db::{
    complete_delete, complete_put, CombineOrder, Database, NumberOp, Step,
};
use rockscached::response::Response;

const CLIENT_ERROR_LINE: &[u8] = b"CLIENT_ERROR cannot increment or decrement non-numeric value\r\n";

/// The record a `Put` step asks the engine to write.
fn record_of(step: Step) -> Vec<u8> {
    match step {
        Step::Put { record, .. } => record,
        other => panic!("expected a put step, got {:?}", other),
    }
}

fn cas_of_record(record: &[u8]) -> u64 {
    let mut stamp = [0u8; 8];
    stamp.copy_from_slice(&record[8..16]);
    u64::from_be_bytes(stamp)
}

#[test]
fn insert_then_get_returns_flags_and_payload() {
    let mut db = Database::new();
    let rec = record_of(db.insert_at(b"k", 7, 100, b"v", 1000));
    let keys = vec![b"k".to_vec()];
    let records = vec![Some(rec)];
    let r = db.get_at(&keys, &records, false, 1100);
    assert_eq!(r, Response::Value { value: b"VALUE k 7 1\r\nv\r\nEND\r\n".to_vec() });
}

#[test]
fn gets_includes_cas_stamp() {
    let mut db = Database::new();
    let rec = record_of(db.insert_at(b"k", 7, 100, b"v", 1000));
    let keys = vec![b"k".to_vec()];
    let records = vec![Some(rec)];
    let r = db.get_at(&keys, &records, true, 1100);
    assert_eq!(r, Response::Value { value: b"VALUE k 7 1 1\r\nv\r\nEND\r\n".to_vec() });
}

#[test]
fn ttl_zero_lives_only_during_its_second() {
    let mut db = Database::new();
    let rec = record_of(db.insert_at(b"k", 0, 0, b"v", 1000));
    let keys = vec![b"k".to_vec()];
    let records = vec![Some(rec)];
    assert_eq!(
        db.get_at(&keys, &records, false, 1000),
        Response::Value { value: b"VALUE k 0 1\r\nv\r\nEND\r\n".to_vec() }
    );
    assert_eq!(
        db.get_at(&keys, &records, false, 1001),
        Response::Value { value: b"END\r\n".to_vec() }
    );
}

#[test]
fn get_skips_absent_and_expired_keys_in_order() {
    let mut db = Database::new();
    let live = record_of(db.insert_at(b"k1", 1, 100, b"a", 1000));
    let expired = record_of(db.insert_at(b"k3", 2, 0, b"c", 1000));
    let live2 = record_of(db.insert_at(b"k4", 3, 100, b"d", 1000));
    let keys = vec![b"k1".to_vec(), b"k2".to_vec(), b"k3".to_vec(), b"k4".to_vec()];
    let records = vec![Some(live), None, Some(expired), Some(live2)];
    let r = db.get_at(&keys, &records, false, 1050);
    assert_eq!(
        r,
        Response::Value { value: b"VALUE k1 1 1\r\na\r\nVALUE k4 3 1\r\nd\r\nEND\r\n".to_vec() }
    );
}

#[test]
fn get_of_nothing_is_just_the_end_marker() {
    let db = Database::new();
    let keys = vec![b"a".to_vec(), b"b".to_vec()];
    let records = vec![None, None];
    assert_eq!(db.get_at(&keys, &records, false, 5), Response::Value { value: b"END\r\n".to_vec() });
}

#[test]
fn get_of_corrupt_record_is_an_engine_error() {
    let db = Database::new();
    let keys = vec![b"a".to_vec()];
    let records = vec![Some(vec![1u8, 2u8, 3u8])];
    assert_eq!(db.get_at(&keys, &records, false, 5), Response::ServerError);
}

#[test]
fn add_on_live_key_is_not_stored() {
    let mut db = Database::new();
    let rec = record_of(db.insert_at(b"k", 7, 100, b"old", 1000));
    let step = db.insert_if_not_present_at(b"k", 1, 50, b"new", &Some(rec), 1050);
    assert_eq!(step, Step::Reply { response: Response::NotStored });
}

#[test]
fn add_on_absent_or_expired_key_behaves_like_set() {
    let mut writer = Database::new();
    let expired = record_of(writer.insert_at(b"k", 7, 0, b"old", 1000));

    let mut db_set = Database::new();
    let mut db_add_absent = Database::new();
    let mut db_add_expired = Database::new();
    let by_set = db_set.insert_at(b"k", 1, 50, b"new", 2000);
    let absent: Option<Vec<u8>> = None;
    let by_add_absent = db_add_absent.insert_if_not_present_at(b"k", 1, 50, b"new", &absent, 2000);
    let by_add_expired =
        db_add_expired.insert_if_not_present_at(b"k", 1, 50, b"new", &Some(expired), 2000);
    assert_eq!(by_add_absent, by_set);
    assert_eq!(by_add_expired, by_set);
}

#[test]
fn combine_on_absent_key_is_not_stored() {
    let mut db = Database::new();
    let absent: Option<Vec<u8>> = None;
    let step = db.update_combined(b"k", 1, 50, b"cd", &absent, CombineOrder::AfterExisting, 1000);
    assert_eq!(step, Step::Reply { response: Response::NotStored });
}

#[test]
fn append_and_prepend_concatenate_and_refresh() {
    let mut db = Database::new();
    let rec = record_of(db.insert_at(b"k", 3, 100, b"ab", 1000));
    let old_cas = cas_of_record(&rec);

    let appended =
        record_of(db.update_combined(b"k", 9, 50, b"cd", &Some(rec.clone()), CombineOrder::AfterExisting, 1000));
    assert_eq!(&appended[20..], b"abcd");
    assert_eq!(&appended[16..20], &[0u8, 0u8, 0u8, 9u8]);
    assert!(cas_of_record(&appended) > old_cas);

    let prepended =
        record_of(db.update_combined(b"k", 9, 50, b"cd", &Some(rec), CombineOrder::BeforeExisting, 1000));
    assert_eq!(&prepended[20..], b"cdab");
    assert!(cas_of_record(&prepended) > cas_of_record(&appended));
}

#[test]
fn incr_on_non_numeric_payload_is_a_client_error() {
    let mut db = Database::new();
    let rec = record_of(db.insert_at(b"k", 0, 100, b"bar", 1000));
    let step = db.update_number(b"k", 1, NumberOp::Incr, &Some(rec), 1000);
    assert_eq!(
        step,
        Step::Reply { response: Response::ClientError { msg: CLIENT_ERROR_LINE.to_vec() } }
    );
}

#[test]
fn incr_preserves_deadline_and_flags() {
    let mut db = Database::new();
    let rec = record_of(db.insert_with_deadline(b"k", 5, 1234, b"41"));
    let step = db.update_number(b"k", 1, NumberOp::Incr, &Some(rec.clone()), 1000);
    match step {
        Step::Put { key, record, on_ok } => {
            assert_eq!(key, b"k".to_vec());
            assert_eq!(&record[0..8], &rec[0..8]);
            assert_eq!(&record[16..20], &rec[16..20]);
            assert_eq!(&record[20..], b"42");
            assert!(cas_of_record(&record) > cas_of_record(&rec));
            assert_eq!(on_ok, Response::Value { value: b"42\r\n".to_vec() });
        },
        other => panic!("expected a put step, got {:?}", other),
    }
}

#[test]
fn decr_subtracts_and_saturates_at_zero() {
    let mut db = Database::new();
    let rec = record_of(db.insert_with_deadline(b"k", 0, 1234, b"41"));
    let down = db.update_number(b"k", 1, NumberOp::Decr, &Some(rec.clone()), 1000);
    match down {
        Step::Put { on_ok, .. } => assert_eq!(on_ok, Response::Value { value: b"40\r\n".to_vec() }),
        other => panic!("expected a put step, got {:?}", other),
    }
    let floor = db.update_number(b"k", 100, NumberOp::Decr, &Some(rec), 1000);
    match floor {
        Step::Put { on_ok, .. } => assert_eq!(on_ok, Response::Value { value: b"0\r\n".to_vec() }),
        other => panic!("expected a put step, got {:?}", other),
    }
}

#[test]
fn incr_on_expired_record_is_not_found() {
    let mut db = Database::new();
    let rec = record_of(db.insert_with_deadline(b"k", 0, 999, b"41"));
    let step = db.update_number(b"k", 1, NumberOp::Incr, &Some(rec), 1000);
    assert_eq!(step, Step::Reply { response: Response::NotFoundError });
}

#[test]
fn incr_on_absent_key_is_not_stored() {
    let mut db = Database::new();
    let absent: Option<Vec<u8>> = None;
    let step = db.update_number(b"k", 1, NumberOp::Incr, &absent, 1000);
    assert_eq!(step, Step::Reply { response: Response::NotStored });
}

#[test]
fn cas_stamps_increase_across_keys_and_operations() {
    let mut db = Database::new();
    let r1 = record_of(db.insert_at(b"a", 0, 100, b"1", 1000));
    let r2 = record_of(db.insert_at(b"b", 0, 100, b"x", 1000));
    let r3 = record_of(db.update_combined(
        b"a",
        0,
        100,
        b"2",
        &Some(r1.clone()),
        CombineOrder::AfterExisting,
        1000,
    ));
    let r4 = record_of(db.update_number(b"a", 1, NumberOp::Incr, &Some(r1.clone()), 1000));
    let c1 = cas_of_record(&r1);
    let c2 = cas_of_record(&r2);
    let c3 = cas_of_record(&r3);
    let c4 = cas_of_record(&r4);
    assert!(c1 < c2 && c2 < c3 && c3 < c4);
}

#[test]
fn delete_step_and_completions() {
    let db = Database::new();
    assert_eq!(db.delete(b"k"), Step::Delete { key: b"k".to_vec() });
    assert_eq!(complete_delete(true), Response::Stored);
    assert_eq!(complete_delete(false), Response::NotFoundError);
    assert_eq!(complete_put(true, Response::Stored), Response::Stored);
    assert_eq!(complete_put(false, Response::Stored), Response::ServerError);
}

#[test]
fn responses_serialize_to_exact_protocol_bytes() {
    assert_eq!(Response::Stored.serialize(), b"STORED\r\n");
    assert_eq!(Response::NotStored.serialize(), b"NOT_STORED\r\n");
    assert_eq!(Response::NotFoundError.serialize(), b"NOT_FOUND\r\n");
    assert_eq!(Response::ServerError.serialize(), b"SERVER_ERROR\r\n");
    assert_eq!(Response::NotImplemented.serialize(), b"NOT_IMPLEMENTED\r\n");
    assert_eq!(
        Response::Error { msg: Box::new(String::from("nonsense")) }.serialize(),
        b"ERROR\r\n"
    );
    assert_eq!(
        Response::ClientError { msg: CLIENT_ERROR_LINE.to_vec() }.serialize(),
        CLIENT_ERROR_LINE
    );
    assert_eq!(Response::Value { value: b"abc".to_vec() }.serialize(), b"abc");
}

#[test]
fn configuration_carries_its_settings() {
    let c = rockscached::configuration::Configuration {
        port: 8080,
        storage_path: String::from("/tmp/rocksdb"),
    };
    assert_eq!(c.port, 8080);
    assert_eq!(c.storage_path, "/tmp/rocksdb");
}
