use rocksdb_mcp::auth::{require_bearer, AuthOutcome, BearerToken, TokenError};

#[test]
fn the_exact_header_gets_through() {
    let token = BearerToken::new("s3cret").unwrap();
    assert_eq!(require_bearer(&token, Some(b"Bearer s3cret")), AuthOutcome::Authorized);
    assert_eq!(AuthOutcome::Authorized.rejection(), None);
}

#[test]
fn a_wrong_header_is_refused() {
    let token = BearerToken::new("s3cret").unwrap();
    for header in [&b"Bearer s3cre"[..], b"bearer s3cret", b"s3cret", b"Bearer s3cret ", b""] {
        assert_eq!(require_bearer(&token, Some(header)), AuthOutcome::InvalidToken);
    }
    let rejection = AuthOutcome::InvalidToken.rejection().unwrap();
    assert_eq!(rejection.status, 401);
    assert_eq!(rejection.body, "invalid bearer token");
    assert_eq!(rejection.www_authenticate, None);
}

#[test]
fn a_missing_header_is_challenged() {
    let token = BearerToken::new("s3cret").unwrap();
    assert_eq!(require_bearer(&token, None), AuthOutcome::MissingToken);
    let rejection = AuthOutcome::MissingToken.rejection().unwrap();
    assert_eq!(rejection.status, 401);
    assert_eq!(rejection.body, "missing bearer token");
    assert_eq!(rejection.www_authenticate, Some("Bearer"));
}

#[test]
fn control_characters_are_refused_in_tokens() {
    let err = BearerToken::new("bad\ntoken").err().unwrap();
    assert_eq!(err, TokenError::NotHeaderSafe);
    assert_eq!(err.message(), "API token contains non-ASCII characters");
    assert!(BearerToken::new("del\u{7f}").is_err());
}

#[test]
fn tabs_and_high_bytes_are_accepted() {
    let token = BearerToken::new("a\tb").unwrap();
    assert_eq!(require_bearer(&token, Some(b"Bearer a\tb")), AuthOutcome::Authorized);
    let token = BearerToken::new("clé").unwrap();
    assert_eq!(
        require_bearer(&token, Some("Bearer clé".as_bytes())),
        AuthOutcome::Authorized
    );
}
