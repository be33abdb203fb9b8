use rocksdb_mcp::config::Mode;
use rocksdb_mcp::db::{Database, RocksDbError};
use rocksdb_mcp::encoding::Encoding;
use rocksdb_mcp::refresh::{next_refresh_action, refresh_needed, RefreshAction, RefreshEvent};
use std::cell::Cell;

use rocksdb_mcp::server::{
    answer_read, decode_key, get_value, list_column_families, GetValueArgs, GetValueResult,
    ToolError,
};

fn db() -> Database {
    Database::new(vec!["default".to_string(), "meta".to_string()], Mode::Snapshot)
}

fn args(cf: &str, key: &str, key_encoding: Encoding, value_encoding: Encoding) -> GetValueArgs {
    GetValueArgs {
        column_family: cf.to_string(),
        key: key.to_string(),
        key_encoding,
        value_encoding,
    }
}

#[test]
fn lists_every_column_family() {
    let listed = list_column_families(&db());
    assert_eq!(listed.column_families, vec!["default".to_string(), "meta".to_string()]);
}

#[test]
fn keys_are_decoded_in_their_encoding() {
    let a = args("default", "a1b2", Encoding::Hex, Encoding::Utf8);
    assert_eq!(decode_key(&a).unwrap(), vec![0xa1, 0xb2]);
    let a = args("default", "users/42", Encoding::Utf8, Encoding::Utf8);
    assert_eq!(decode_key(&a).unwrap(), b"users/42".to_vec());
    let a = args("default", "xyz", Encoding::Hex, Encoding::Utf8);
    match decode_key(&a).unwrap_err() {
        ToolError::InvalidParams(m) => assert!(m.starts_with("field 'key' is not valid hex: ")),
        other => panic!("unexpected {other:?}"),
    }
}

#[test]
fn found_values_are_encoded() {
    let a = args("meta", "version", Encoding::Utf8, Encoding::Utf8);
    match answer_read(&db(), &a, Some(Ok(Some(b"42".to_vec())))).unwrap() {
        GetValueResult::Found { found, value, value_encoding } => {
            assert!(found);
            assert_eq!(value, "42");
            assert_eq!(value_encoding, Encoding::Utf8);
        }
        GetValueResult::Missing { .. } => panic!("value lost"),
    }
    let a = args("default", "binary", Encoding::Utf8, Encoding::Base64);
    match answer_read(&db(), &a, Some(Ok(Some(vec![0xff, 0xfe, 0x00, 0x01])))).unwrap() {
        GetValueResult::Found { found, value, value_encoding } => {
            assert!(found);
            assert_eq!(value, "//4AAQ==");
            assert_eq!(value_encoding, Encoding::Base64);
        }
        GetValueResult::Missing { .. } => panic!("value lost"),
    }
}

#[test]
fn missing_key_is_not_an_error() {
    let a = args("meta", "missing", Encoding::Utf8, Encoding::Utf8);
    match answer_read(&db(), &a, Some(Ok(None))).unwrap() {
        GetValueResult::Missing { found } => assert!(!found),
        GetValueResult::Found { .. } => panic!("found a missing key"),
    }
}

#[test]
fn failures_are_sorted_by_whose_fault() {
    let a = args("nope", "a", Encoding::Utf8, Encoding::Utf8);
    match answer_read(&db(), &a, None).unwrap_err() {
        ToolError::InvalidParams(m) => assert!(m.starts_with("unknown column family 'nope'")),
        other => panic!("unexpected {other:?}"),
    }
    let a = args("default", "a", Encoding::Utf8, Encoding::Utf8);
    let read = Some(Err(RocksDbError { message: "Corruption".to_string() }));
    match answer_read(&db(), &a, read).unwrap_err() {
        ToolError::Internal(m) => assert_eq!(m, "rocksdb error: Corruption"),
        other => panic!("unexpected {other:?}"),
    }
    let a = args("default", "binary", Encoding::Utf8, Encoding::Utf8);
    match answer_read(&db(), &a, Some(Ok(Some(vec![0xff, 0xfe])))).unwrap_err() {
        ToolError::InvalidParams(m) => assert_eq!(
            m,
            "field 'value' is not valid UTF-8; retry with value_encoding=\"base64\""
        ),
        other => panic!("unexpected {other:?}"),
    }
}

#[test]
fn refresh_follows_the_mode_and_the_events() {
    assert!(refresh_needed(Mode::Secondary));
    assert!(!refresh_needed(Mode::Snapshot));
    assert_eq!(next_refresh_action(RefreshEvent::Cancelled), RefreshAction::Stop);
    assert_eq!(next_refresh_action(RefreshEvent::Tick), RefreshAction::CatchUp);
    assert_eq!(next_refresh_action(RefreshEvent::CatchUpFailed), RefreshAction::WarnAndWait);
}

#[test]
fn an_undecodable_key_is_answered_before_any_read() {
    let reads = Cell::new(0);
    let a = args("nope", "abc", Encoding::Hex, Encoding::Utf8);
    let r = get_value(&db(), &a, |_key: Vec<u8>| {
        reads.set(reads.get() + 1);
        None
    });
    match r.unwrap_err() {
        ToolError::InvalidParams(m) => {
            assert_eq!(m, "field 'key' is not valid hex: Odd number of digits")
        }
        other => panic!("unexpected {other:?}"),
    }
    assert_eq!(reads.get(), 0);
}

#[test]
fn a_decoded_key_is_read_once() {
    let seen = Cell::new(None::<Vec<u8>>);
    let reads = Cell::new(0);
    for (key, enc) in [
        ("greeting", Encoding::Utf8),
        ("6772656574696e67", Encoding::Hex),
        ("Z3JlZXRpbmc=", Encoding::Base64),
    ] {
        let a = args("default", key, enc, Encoding::Utf8);
        let r = get_value(&db(), &a, |k: Vec<u8>| {
            reads.set(reads.get() + 1);
            seen.set(Some(k));
            Some(Ok(Some(b"hello world".to_vec())))
        });
        assert_eq!(seen.take(), Some(b"greeting".to_vec()));
        match r.unwrap() {
            GetValueResult::Found { found, value, .. } => {
                assert!(found);
                assert_eq!(value, "hello world");
            }
            GetValueResult::Missing { .. } => panic!("value lost"),
        }
    }
    assert_eq!(reads.get(), 3);
    let a = args("nope", "greeting", Encoding::Utf8, Encoding::Utf8);
    match get_value(&db(), &a, |_k: Vec<u8>| None).unwrap_err() {
        ToolError::InvalidParams(m) => assert!(m.starts_with("unknown column family 'nope'")),
        other => panic!("unexpected {other:?}"),
    }
}
