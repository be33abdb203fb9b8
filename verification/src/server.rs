//! The two tools: what they take, and how they answer.
use vstd::prelude::*;
use vstd::utf8::valid_utf8;
use crate::db::{names_view, unknown_cf_text, Database, GetError, RocksDbError};
use crate::encoding::{
    decode, decode_error, decoded, encode, encoded, encoded_len_fits, encoding_error_text,
    utf8_error_text, Encoding, EncodingError,
};

verus! {

/// The arguments of `get_value`.
#[derive(Debug)]
pub struct GetValueArgs {
    /// Column family name, exactly as `list_column_families` gives it.
    pub column_family: String,
    /// The key, written in `key_encoding`.
    pub key: String,
    pub key_encoding: Encoding,
    /// How the value is to be written in the answer.
    pub value_encoding: Encoding,
}

/// The answer of `get_value`: the value found, or that there is none.
#[derive(Debug)]
pub enum GetValueResult {
    Found { found: bool, value: String, value_encoding: Encoding },
    Missing { found: bool },
}

/// The answer of `list_column_families`.
#[derive(Debug)]
pub struct ListColumnFamiliesResult {
    pub column_families: Vec<String>,
}

/// A tool call that failed: the caller's mistake, or the server's.
#[derive(Debug)]
pub enum ToolError {
    InvalidParams(String),
    Internal(String),
}

/// Encoding failures are the caller's: a key not in its encoding, or a
/// value that cannot be written in the one asked for.
pub fn map_enc(e: &EncodingError) -> (r: ToolError)
    ensures
        r matches ToolError::InvalidParams(m) && m@ == encoding_error_text(*e),
{
    ToolError::InvalidParams(e.message())
}

/// An unknown column family is the caller's mistake; a RocksDB failure is
/// the server's.
pub fn map_get(e: &GetError) -> (r: ToolError)
    ensures
        match e {
            GetError::UnknownColumnFamily { .. } => r matches ToolError::InvalidParams(m) && m@
                == e.text(),
            GetError::RocksDb(_) => r matches ToolError::Internal(m) && m@ == e.text(),
        },
{
    match e {
        GetError::UnknownColumnFamily { .. } => ToolError::InvalidParams(e.message()),
        GetError::RocksDb(_) => ToolError::Internal(e.message()),
    }
}

fn copy_names(names: &[String]) -> (r: Vec<String>)
    ensures
        r@ == names@,
{
    let mut r: Vec<String> = Vec::new();
    let mut i: usize = 0;
    while i < names.len()
        invariant
            i <= names@.len(),
            r@ == names@.subrange(0, i as int),
        decreases names@.len() - i,
    {
        r.push(names[i].clone());
        i = i + 1;
    }
    r
}

/// Every column family of the database, in the order it lists them.
pub fn list_column_families(db: &Database) -> (r: ListColumnFamiliesResult)
    ensures
        names_view(r.column_families@) == db.cf_names(),
{
    let column_families = copy_names(db.column_families());
    ListColumnFamiliesResult { column_families }
}

/// The first step of `get_value`: the key's bytes, read from its text in
/// `key_encoding`, or the caller's error when the text is not in that form.
pub fn decode_key(args: &GetValueArgs) -> (r: Result<Vec<u8>, ToolError>)
    ensures
        r is Ok <==> decoded(args.key@, args.key_encoding) is Some,
        r matches Ok(k) ==> decoded(args.key@, args.key_encoding) == Some(k@),
        r matches Err(e) ==> e matches ToolError::InvalidParams(m) && m@ == encoding_error_text(
            decode_error("key", args.key@, args.key_encoding),
        ),
{
    match decode("key", args.key.as_str(), args.key_encoding) {
        Ok(k) => Ok(k),
        Err(d) => Err(map_enc(&d)),
    }
}

/// The value read may be written in the encoding asked for without
/// running out of memory.
pub open spec fn read_fits(read: Option<Result<Option<Vec<u8>>, RocksDbError>>, enc: Encoding) -> bool {
    read matches Some(Ok(Some(v))) ==> encoded_len_fits(v@.len(), enc)
}

/// What `get_value` answers for a database with column families
/// `cf_names`, given the read's outcome. Neither the key nor its encoding
/// appears: they only choose what is read.
pub open spec fn get_value_answers(
    cf_names: Seq<Seq<char>>,
    column_family: Seq<char>,
    value_encoding: Encoding,
    read: Option<Result<Option<Vec<u8>>, RocksDbError>>,
    r: Result<GetValueResult, ToolError>,
) -> bool {
    match read {
        None => r matches Err(ToolError::InvalidParams(m)) && m@ == unknown_cf_text(
            column_family,
            cf_names,
        ),
        Some(Err(e)) => r matches Err(ToolError::Internal(m)) && m@ == "rocksdb error: "@
            + e.message@,
        Some(Ok(None)) => r matches Ok(GetValueResult::Missing { found }) && !found,
        Some(Ok(Some(v))) => match encoded(v@, value_encoding) {
            Some(t) => r matches Ok(GetValueResult::Found { found, value, value_encoding: e })
                && found && value@ == t && e == value_encoding && decoded(value@, e) == Some(v@),
            None => r matches Err(ToolError::InvalidParams(m)) && m@ == utf8_error_text("value"@),
        },
    }
}

/// What `get_value` answers to a key that does not decode: the caller's
/// error for that key.
pub open spec fn key_error_answer(args: GetValueArgs, r: Result<GetValueResult, ToolError>) -> bool {
    r matches Err(ToolError::InvalidParams(m)) && m@ == encoding_error_text(
        decode_error("key", args.key@, args.key_encoding),
    )
}

/// The two answers say the same: the same variant, with equal texts.
pub open spec fn same_answer(r1: Result<GetValueResult, ToolError>, r2: Result<GetValueResult, ToolError>) -> bool {
    match (r1, r2) {
        (
            Ok(GetValueResult::Found { found: f1, value: v1, value_encoding: e1 }),
            Ok(GetValueResult::Found { found: f2, value: v2, value_encoding: e2 }),
        ) => f1 == f2 && v1@ == v2@ && e1 == e2,
        (Ok(GetValueResult::Missing { found: f1 }), Ok(GetValueResult::Missing { found: f2 })) => f1
            == f2,
        (Err(ToolError::InvalidParams(m1)), Err(ToolError::InvalidParams(m2))) => m1@ == m2@,
        (Err(ToolError::Internal(m1)), Err(ToolError::Internal(m2))) => m1@ == m2@,
        _ => false,
    }
}

/// The answer of `get_value` once the key has been read, given what the
/// database returned for the column family and key (`None`: no such column
/// family). A missing key is answered `found: false`, which is no error. A
/// value found is written in `value_encoding`, and that text decodes back to
/// the stored bytes.
pub fn answer_read(db: &Database, args: &GetValueArgs, read: Option<Result<Option<Vec<u8>>, RocksDbError>>) -> (r:
    Result<GetValueResult, ToolError>)
    requires
        read_fits(read, args.value_encoding),
    ensures
        get_value_answers(db.cf_names(), args.column_family@, args.value_encoding, read, r),
{
    let value = match db.get(args.column_family.as_str(), read) {
        Ok(value) => value,
        Err(e) => {
            return Err(map_get(&e));
        },
    };
    match value {
        None => Ok(GetValueResult::Missing { found: false }),
        Some(bytes) => match encode("value", bytes.as_slice(), args.value_encoding) {
            Ok(text) => Ok(
                GetValueResult::Found { found: true, value: text, value_encoding: args.value_encoding },
            ),
            Err(e) => {
                proof {
                    reveal_strlit("value");
                }
                Err(map_enc(&e))
            },
        },
    }
}

/// Fetches the value of one key of one column family. The key is decoded
/// first: a key that does not decode is answered with its error, whatever
/// the column family, and `read` is not called. Otherwise `read` is called
/// once, with the key's bytes (it returns `None` when the database has no
/// such column family), and its outcome is answered as `answer_read` does.
pub fn get_value<F>(db: &Database, args: &GetValueArgs, read: F) -> (r: Result<
    GetValueResult,
    ToolError,
>) where F: Fn(Vec<u8>) -> Option<Result<Option<Vec<u8>>, RocksDbError>>
    requires
        forall|k: Vec<u8>| #[trigger] read.requires((k,)),
        forall|k: Vec<u8>, o: Option<Result<Option<Vec<u8>>, RocksDbError>>| #[trigger]
            read.ensures((k,), o) ==> read_fits(o, args.value_encoding),
    ensures
        decoded(args.key@, args.key_encoding) is None ==> key_error_answer(*args, r),
        decoded(args.key@, args.key_encoding) matches Some(kb) ==> exists|
            k: Vec<u8>,
            o: Option<Result<Option<Vec<u8>>, RocksDbError>>,
        |
            k@ == kb && #[trigger] read.ensures((k,), o) && get_value_answers(
                db.cf_names(),
                args.column_family@,
                args.value_encoding,
                o,
                r,
            ),
{
    let key = match decode_key(args) {
        Ok(key) => key,
        Err(e) => {
            return Err(e);
        },
    };
    let outcome = read(key);
    answer_read(db, args, outcome)
}

/// A key that is there is always found: whenever the read returns a value,
/// of any length, the empty one included, the answer is `found: true` with
/// a text that decodes back to that value (unless UTF-8 was asked for and
/// the value is not UTF-8, which is the caller's error). `found: false` is
/// answered exactly when the read returns no value for the key.
pub proof fn lemma_found_exactly_when_present(
    cf_names: Seq<Seq<char>>,
    column_family: Seq<char>,
    value_encoding: Encoding,
    read: Option<Result<Option<Vec<u8>>, RocksDbError>>,
    r: Result<GetValueResult, ToolError>,
)
    requires
        get_value_answers(cf_names, column_family, value_encoding, read, r),
    ensures
        (r matches Ok(GetValueResult::Missing { .. })) <==> (read matches Some(Ok(None))),
        r matches Ok(GetValueResult::Missing { found }) ==> !found,
        r matches Ok(GetValueResult::Found { found, .. }) ==> found,
        read matches Some(Ok(Some(v))) ==> (value_encoding != Encoding::Utf8 || valid_utf8(v@))
            ==> (r matches Ok(GetValueResult::Found { found, value, value_encoding: e }) && found
            && e == value_encoding && decoded(value@, e) == Some(v@)),
{
}

/// The answer depends on the key only through what is read: two requests
/// for the same column family and value encoding, however their keys are
/// written, get the same answer from the same read. (Keys that `decode_key`
/// turns into the same bytes read the same entry.)
pub proof fn lemma_answer_ignores_key_text(
    cf_names: Seq<Seq<char>>,
    a1: GetValueArgs,
    a2: GetValueArgs,
    read: Option<Result<Option<Vec<u8>>, RocksDbError>>,
    r1: Result<GetValueResult, ToolError>,
    r2: Result<GetValueResult, ToolError>,
)
    requires
        a1.column_family@ == a2.column_family@,
        a1.value_encoding == a2.value_encoding,
        get_value_answers(cf_names, a1.column_family@, a1.value_encoding, read, r1),
        get_value_answers(cf_names, a2.column_family@, a2.value_encoding, read, r2),
    ensures
        same_answer(r1, r2),
{
}

} // verus!
