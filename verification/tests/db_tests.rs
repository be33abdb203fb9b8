use std::path::PathBuf;
use std::time::Duration;

use rocksdb_mcp::config::{Config, Mode};
use rocksdb_mcp::db::{
    list_cf_or_default, open_options, open_target, Database, GetError, OpenTarget, RocksDbError,
};

fn names(list: &[&str]) -> Vec<String> {
    list.iter().map(|s| s.to_string()).collect()
}

#[test]
fn catalog_keeps_column_families_and_mode() {
    let db = Database::new(names(&["default", "meta"]), Mode::Secondary);
    assert_eq!(db.column_families(), &names(&["default", "meta"])[..]);
    assert_eq!(db.mode(), Mode::Secondary);
}

#[test]
fn lookup_answers() {
    let db = Database::new(names(&["default", "meta"]), Mode::Snapshot);
    assert_eq!(db.get("default", Some(Ok(Some(b"1".to_vec())))).unwrap(), Some(b"1".to_vec()));
    assert_eq!(db.get("meta", Some(Ok(None))).unwrap(), None);
    let err = db.get("nope", None).unwrap_err();
    match &err {
        GetError::UnknownColumnFamily { requested, available } => {
            assert_eq!(requested, "nope");
            assert_eq!(available, &names(&["default", "meta"]));
        }
        other => panic!("unexpected {other:?}"),
    }
    assert_eq!(
        err.message(),
        "unknown column family 'nope'; call list_column_families to see available CFs (currently: [\"default\", \"meta\"])"
    );
    let err = db
        .get("meta", Some(Err(RocksDbError { message: "IO error: gone".to_string() })))
        .unwrap_err();
    assert!(matches!(err, GetError::RocksDb(_)));
    assert_eq!(err.message(), "rocksdb error: IO error: gone");
}

#[test]
fn unlisted_database_falls_back_to_default() {
    assert_eq!(list_cf_or_default(Ok(names(&["a", "b"]))), names(&["a", "b"]));
    let fallback = list_cf_or_default(Err(RocksDbError { message: "no such dir".to_string() }));
    assert_eq!(fallback, names(&["default"]));
}

#[test]
fn open_options_by_mode() {
    let snapshot = open_options(Mode::Snapshot);
    assert!(!snapshot.create_if_missing);
    assert!(!snapshot.create_missing_column_families);
    assert_eq!(snapshot.max_open_files, None);
    let secondary = open_options(Mode::Secondary);
    assert!(!secondary.create_if_missing);
    assert!(!secondary.create_missing_column_families);
    assert_eq!(secondary.max_open_files, Some(-1));
}

#[test]
fn open_target_by_mode() {
    let mut cfg = Config {
        db_path: PathBuf::from("/data/db"),
        mode: Mode::Snapshot,
        secondary_path: None,
        refresh_interval: Duration::from_secs(5),
        host: "127.0.0.1".into(),
        port: 0,
        api_token: None,
    };
    assert!(matches!(open_target(&cfg), OpenTarget::Snapshot { path } if path == &PathBuf::from("/data/db")));
    cfg.mode = Mode::Secondary;
    cfg.secondary_path = Some(PathBuf::from("/tmp/sec"));
    match open_target(&cfg) {
        OpenTarget::Secondary { primary, secondary } => {
            assert_eq!(primary, &PathBuf::from("/data/db"));
            assert_eq!(secondary, &PathBuf::from("/tmp/sec"));
        }
        OpenTarget::Snapshot { .. } => panic!("secondary mode opened as a snapshot"),
    }
}
