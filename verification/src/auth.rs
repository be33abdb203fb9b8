//! Bearer-token access control: which requests get through, and what the
//! others are answered.
use vstd::prelude::*;
use vstd::utf8::encode_utf8;

verus! {

/// A byte that may stand in an HTTP header value: visible characters,
/// space, tab and the bytes above ASCII; not the other control bytes.
pub open spec fn is_header_value_byte(b: u8) -> bool {
    (b >= 32 && b != 127) || b == 9
}

pub open spec fn is_header_value(bytes: Seq<u8>) -> bool {
    forall|i: int| 0 <= i < bytes.len() ==> is_header_value_byte(#[trigger] bytes[i])
}

/// The `Authorization` header value that carries `token`.
pub open spec fn bearer_header(token: Seq<char>) -> Seq<u8> {
    encode_utf8("Bearer "@ + token)
}

/// `http::HeaderValue::from_str` (through axum): the text's bytes, when every
/// one of them may stand in a header value.
#[verifier::external_body]
fn header_value_bytes(text: &str) -> (r: Option<Vec<u8>>)
    ensures
        r is Some <==> is_header_value(encode_utf8(text@)),
        r matches Some(v) ==> v@ == encode_utf8(text@),
{
    match axum::http::HeaderValue::from_str(text) {
        Ok(value) => Some(value.as_bytes().to_vec()),
        Err(_) => None,
    }
}

/// The header value that requests must carry.
pub struct BearerToken {
    header: Vec<u8>,
}

impl View for BearerToken {
    type V = Seq<u8>;

    open spec fn view(&self) -> Seq<u8> {
        self.header_bytes()
    }
}

/// Why a token was refused when the server started.
#[derive(Debug, Clone, Copy, PartialEq, Eq, Structural)]
pub enum TokenError {
    /// The token holds bytes that cannot stand in a header value.
    NotHeaderSafe,
}

impl TokenError {
    pub fn message(&self) -> (m: String)
        ensures
            m@ == "API token contains non-ASCII characters"@,
    {
        String::from_str("API token contains non-ASCII characters")
    }
}

impl BearerToken {
    pub closed spec fn header_bytes(&self) -> Seq<u8> {
        self.header@
    }

    /// The expected header is `Bearer ` followed by the token; it is refused
    /// exactly when it could not be a header value.
    pub fn new(token: &str) -> (r: Result<BearerToken, TokenError>)
        ensures
            r is Ok <==> is_header_value(bearer_header(token@)),
            r matches Ok(t) ==> t@ == bearer_header(token@),
            r matches Err(e) ==> e == TokenError::NotHeaderSafe,
    {
        let mut text = String::from_str("Bearer ");
        text.append(token);
        match header_value_bytes(text.as_str()) {
            Some(header) => Ok(BearerToken { header }),
            None => Err(TokenError::NotHeaderSafe),
        }
    }
}

/// What the access check makes of a request.
#[derive(Debug, Clone, Copy, PartialEq, Eq, Structural)]
pub enum AuthOutcome {
    /// The request carries the expected header and goes on.
    Authorized,
    /// An `Authorization` header is there but is not the expected one.
    InvalidToken,
    /// No `Authorization` header.
    MissingToken,
}

/// The answer to a refused request.
#[derive(Debug, Clone, Copy, PartialEq, Eq)]
pub struct Rejection {
    pub status: u16,
    pub body: &'static str,
    /// The `WWW-Authenticate` challenge, when one is sent.
    pub www_authenticate: Option<&'static str>,
}

pub open spec fn auth_outcome(expected: Seq<u8>, authorization: Option<Seq<u8>>) -> AuthOutcome {
    match authorization {
        None => AuthOutcome::MissingToken,
        Some(h) => if h == expected {
            AuthOutcome::Authorized
        } else {
            AuthOutcome::InvalidToken
        },
    }
}

pub open spec fn header_view(authorization: Option<&[u8]>) -> Option<Seq<u8>> {
    match authorization {
        None => None,
        Some(h) => Some(h@),
    }
}

fn same_bytes(a: &[u8], b: &[u8]) -> (r: bool)
    ensures
        r == (a@ == b@),
{
    if a.len() != b.len() {
        return false;
    }
    let mut i: usize = 0;
    while i < a.len()
        invariant
            a@.len() == b@.len(),
            i <= a@.len(),
            forall|j: int| 0 <= j < i ==> a@[j] == b@[j],
        decreases a@.len() - i,
    {
        if a[i] != b[i] {
            return false;
        }
        i = i + 1;
    }
    assert(a@ =~= b@);
    true
}

/// Decides a request from its `Authorization` header (its first one, as
/// bytes): only the exact expected header gets through.
pub fn require_bearer(token: &BearerToken, authorization: Option<&[u8]>) -> (r: AuthOutcome)
    ensures
        r == auth_outcome(token@, header_view(authorization)),
{
    match authorization {
        None => AuthOutcome::MissingToken,
        Some(h) => if same_bytes(h, token.header.as_slice()) {
            AuthOutcome::Authorized
        } else {
            AuthOutcome::InvalidToken
        },
    }
}

impl AuthOutcome {
    /// Refused requests get `401`; a missing header also gets the `Bearer`
    /// challenge.
    pub fn rejection(&self) -> (r: Option<Rejection>)
        ensures
            match self {
                AuthOutcome::Authorized => r is None,
                AuthOutcome::InvalidToken => r matches Some(j) && j.status == 401 && j.body@
                    == "invalid bearer token"@ && j.www_authenticate is None,
                AuthOutcome::MissingToken => r matches Some(j) && j.status == 401 && j.body@
                    == "missing bearer token"@ && j.www_authenticate is Some
                    && j.www_authenticate.unwrap()@ == "Bearer"@,
            },
    {
        match self {
            AuthOutcome::Authorized => None,
            AuthOutcome::InvalidToken => Some(
                Rejection { status: 401, body: "invalid bearer token", www_authenticate: None },
            ),
            AuthOutcome::MissingToken => Some(
                Rejection {
                    status: 401,
                    body: "missing bearer token",
                    www_authenticate: Some("Bearer"),
                },
            ),
        }
    }
}

/// With a token configured, a request gets through exactly when it carries
/// `Bearer ` and the token; every other request is refused.
pub proof fn lemma_only_the_token_gets_through(token: Seq<char>, authorization: Option<Seq<u8>>)
    ensures
        auth_outcome(bearer_header(token), authorization) == AuthOutcome::Authorized <==> authorization
            == Some(bearer_header(token)),
{
}

} // verus!
