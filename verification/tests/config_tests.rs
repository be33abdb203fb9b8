use std::path::PathBuf;
use std::time::Duration;

use rocksdb_mcp::config::{
    duration_text_is_safe_check, parse_duration, parse_refresh_interval, Config, ConfigError, DurationError,
    Mode,
};

fn config(mode: Mode, secondary_path: Option<PathBuf>) -> Config {
    Config {
        db_path: PathBuf::from("/var/lib/mydb"),
        mode,
        secondary_path,
        refresh_interval: Duration::from_secs(5),
        host: "127.0.0.1".to_string(),
        port: 8080,
        api_token: None,
    }
}

#[test]
fn snapshot_needs_no_secondary_path() {
    assert!(config(Mode::Snapshot, None).validate().is_ok());
    assert!(config(Mode::Snapshot, Some(PathBuf::from("/tmp/s"))).validate().is_ok());
}

#[test]
fn secondary_needs_secondary_path() {
    let err = config(Mode::Secondary, None).validate().unwrap_err();
    assert_eq!(err, ConfigError::MissingSecondaryPath);
    assert_eq!(
        err.message(),
        "--secondary-path (ROCKSDB_SECONDARY_PATH) is required when --mode=secondary"
    );
    assert!(config(Mode::Secondary, Some(PathBuf::from("/tmp/s"))).validate().is_ok());
}

#[test]
fn bind_addr_joins_host_and_port() {
    assert_eq!(config(Mode::Snapshot, None).bind_addr(), "127.0.0.1:8080");
    let mut cfg = config(Mode::Snapshot, None);
    cfg.host = "0.0.0.0".to_string();
    cfg.port = 0;
    assert_eq!(cfg.bind_addr(), "0.0.0.0:0");
    cfg.port = 65535;
    assert_eq!(cfg.bind_addr(), "0.0.0.0:65535");
    cfg.port = 10;
    assert_eq!(cfg.bind_addr(), "0.0.0.0:10");
}

#[test]
fn durations_parse() {
    assert_eq!(parse_duration("5s").unwrap(), (5, 0));
    assert_eq!(parse_duration("500ms").unwrap(), (0, 500_000_000));
    assert_eq!(parse_duration("2m").unwrap(), (120, 0));
    assert_eq!(parse_duration("4.2s").unwrap(), (4, 200_000_000));
    assert_eq!(parse_duration("2h 37min").unwrap(), (9420, 0));
    assert_eq!(parse_refresh_interval("1s").unwrap(), (1, 0));
}

#[test]
fn bad_duration_is_quoted() {
    assert_eq!(
        parse_duration("soon").unwrap_err(),
        "invalid duration 'soon': expected number at 0"
    );
    assert_eq!(
        parse_refresh_interval("5").unwrap_err(),
        "invalid duration '5': time unit needed, for example 5sec or 5ms"
    );
    assert_eq!(
        parse_refresh_interval("5 parsecs").unwrap_err(),
        "invalid duration '5 parsecs': unknown time unit \"parsecs\", supported units: ns, us/µs, ms, sec, min, hours, days, weeks, months, years (and few variations)"
    );
    assert_eq!(
        parse_refresh_interval("").unwrap_err(),
        "invalid duration '': value was empty"
    );
}

#[test]
fn huge_durations_are_refused_before_parsing() {
    assert!(duration_text_is_safe_check("5s"));
    assert!(duration_text_is_safe_check("ключ 1"));
    assert_eq!(parse_refresh_interval("000000000005s").unwrap(), (5, 0));
    assert_eq!(parse_refresh_interval("100000000000ns").unwrap(), (100, 0));
    assert_eq!(parse_refresh_interval("12345678901s").unwrap(), (12345678901, 0));
    assert_eq!(
        parse_refresh_interval("18446744073709551615s 1000000000ns").unwrap_err(),
        "invalid duration '18446744073709551615s 1000000000ns': duration too large"
    );
    assert!(!duration_text_is_safe_check("18446744073709551615s 999999999ns 1ns"));
    assert!(!duration_text_is_safe_check("99999999999999999999999999999999999999999s"));
}

#[test]
fn duration_error_texts() {
    assert_eq!(DurationError::InvalidCharacter(3).message(), "invalid character at 3");
    assert_eq!(DurationError::NumberOverflow.message(), "number is too large or cannot be represented without a lack of precision (values below 1ns are not supported)");
}
