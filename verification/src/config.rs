//! The server's settings and the checks made on them before anything opens.
use vstd::prelude::*;
use vstd::utf8::encode_utf8;
use crate::text::{decimal, push_decimal, str_debug, str_debug_text};

verus! {

/// How the database is opened: a read-only view fixed when it opens, or a
/// secondary instance that follows a primary writer.
#[derive(Debug, Clone, Copy, PartialEq, Eq, Structural)]
pub enum Mode {
    Snapshot,
    Secondary,
}

#[verifier::external_type_specification]
#[verifier::external_body]
pub struct ExPathBuf(std::path::PathBuf);

/// The settings of one server.
pub struct Config {
    /// The primary database directory.
    pub db_path: std::path::PathBuf,
    pub mode: Mode,
    /// The secondary instance's own directory; needed in secondary mode.
    pub secondary_path: Option<std::path::PathBuf>,
    /// How often a secondary instance catches up with the primary.
    pub refresh_interval: std::time::Duration,
    pub host: String,
    pub port: u16,
    /// When present, every request must carry this bearer token.
    pub api_token: Option<String>,
}

/// Why a configuration was refused.
#[derive(Debug, Clone, Copy, PartialEq, Eq, Structural)]
pub enum ConfigError {
    /// Secondary mode was asked for without a secondary directory.
    MissingSecondaryPath,
}

impl ConfigError {
    pub fn message(&self) -> (m: String)
        ensures
            m@ == "--secondary-path (ROCKSDB_SECONDARY_PATH) is required when --mode=secondary"@,
    {
        String::from_str("--secondary-path (ROCKSDB_SECONDARY_PATH) is required when --mode=secondary")
    }
}

/// A configuration that the server can start from: secondary mode comes
/// with a secondary directory.
pub open spec fn config_is_valid(mode: Mode, secondary_path: Option<std::path::PathBuf>) -> bool {
    mode == Mode::Secondary ==> secondary_path is Some
}

impl Config {
    /// Refuses secondary mode without a secondary directory, and nothing else.
    pub fn validate(&self) -> (r: Result<(), ConfigError>)
        ensures
            r is Ok <==> config_is_valid(self.mode, self.secondary_path),
            r matches Err(e) ==> e == ConfigError::MissingSecondaryPath,
    {
        if self.mode == Mode::Secondary && self.secondary_path.is_none() {
            return Err(ConfigError::MissingSecondaryPath);
        }
        Ok(())
    }

    /// The address to listen on: the host, a colon, and the port in decimal.
    pub fn bind_addr(&self) -> (r: String)
        ensures
            r@ == self.host@ + ":"@ + decimal(self.port as nat),
    {
        let mut r = self.host.clone();
        r.append(":");
        push_decimal(&mut r, self.port as u64);
        r
    }
}

/// Why humantime refused a duration text: `humantime::DurationError`, held
/// as plain values.
#[derive(Debug, Clone, PartialEq, Eq)]
pub enum DurationError {
    InvalidCharacter(usize),
    NumberExpected(usize),
    UnknownUnit { start: usize, end: usize, unit: String, value: u64 },
    NumberOverflow,
    Empty,
}

/// What `humantime::parse_duration` makes of a text: the whole seconds and
/// the nanoseconds of the duration, or its error.
pub uninterp spec fn humantime_parsed(text: Seq<char>) -> Result<(u64, u32), DurationError>;

/// The seconds in humantime's year, its longest unit.
pub const YEAR_SECONDS: u128 = 31_557_600;

/// More than any one span of a duration text can add besides its number
/// times its unit: a fraction of a year, a carried second, a minute's worth
/// of fractional nanoseconds.
pub const SPAN_SLACK_SECONDS: u128 = 31_557_700;

pub open spec fn is_ascii_digit(b: u8) -> bool {
    48 <= b <= 57
}

/// The number of ASCII digits among the bytes.
pub open spec fn ascii_digit_count(bytes: Seq<u8>) -> nat
    decreases bytes.len(),
{
    if bytes.len() == 0 {
        0
    } else {
        (if is_ascii_digit(bytes.last()) {
            1nat
        } else {
            0nat
        }) + ascii_digit_count(bytes.drop_last())
    }
}

/// The number written by all the ASCII digits of the bytes, read one after
/// another with everything else skipped.
pub open spec fn digits_value(bytes: Seq<u8>) -> nat
    decreases bytes.len(),
{
    if bytes.len() == 0 {
        0
    } else if is_ascii_digit(bytes.last()) {
        digits_value(bytes.drop_last()) * 10 + (bytes.last() - 48) as nat
    } else {
        digits_value(bytes.drop_last())
    }
}

/// A duration text whose total cannot come near `u64::MAX` seconds.
///
/// humantime reads a text as spans, each a number (digits, perhaps with
/// spaces and a fraction) followed by a unit. A span adds at most its
/// number times a year plus `SPAN_SLACK_SECONDS`; the numbers together are
/// at most the number that all the digits write in a row, and there are no
/// more spans than digits. humantime panics only when the seconds reach
/// `u64::MAX` exactly as a full second of nanoseconds is carried into them
/// (as for `18446744073709551615s 1000000000ns`); below that bound they
/// never do.
pub open spec fn duration_text_is_safe(text: Seq<char>) -> bool {
    digits_value(encode_utf8(text)) * YEAR_SECONDS + ascii_digit_count(encode_utf8(text))
        * SPAN_SLACK_SECONDS < u64::MAX
}

/// `humantime::parse_duration`, with the duration given as whole seconds and
/// nanoseconds (`Duration::as_secs`, `Duration::subsec_nanos`, the latter
/// below one second) and the error carried over variant by variant. It can
/// panic on texts whose total reaches `u64::MAX` seconds, which are left out.
#[verifier::external_body]
fn humantime_parse(text: &str) -> (r: Result<(u64, u32), DurationError>)
    requires
        duration_text_is_safe(text@),
    ensures
        r == humantime_parsed(text@),
        r matches Ok(p) ==> p.1 < 1_000_000_000,
{
    match humantime::parse_duration(text) {
        Ok(d) => Ok((d.as_secs(), d.subsec_nanos())),
        Err(humantime::DurationError::InvalidCharacter(o)) => Err(DurationError::InvalidCharacter(o)),
        Err(humantime::DurationError::NumberExpected(o)) => Err(DurationError::NumberExpected(o)),
        Err(humantime::DurationError::UnknownUnit { start, end, unit, value }) => Err(
            DurationError::UnknownUnit { start, end, unit, value },
        ),
        Err(humantime::DurationError::NumberOverflow) => Err(DurationError::NumberOverflow),
        Err(humantime::DurationError::Empty) => Err(DurationError::Empty),
    }
}

/// The text of humantime's error, as humantime writes it.
pub open spec fn duration_error_text(e: DurationError) -> Seq<char> {
    match e {
        DurationError::InvalidCharacter(o) => "invalid character at "@ + decimal(o as nat),
        DurationError::NumberExpected(o) => "expected number at "@ + decimal(o as nat),
        DurationError::UnknownUnit { unit, value, .. } => if unit@.len() == 0 {
            "time unit needed, for example "@ + decimal(value as nat) + "sec or "@ + decimal(
                value as nat,
            ) + "ms"@
        } else {
            "unknown time unit "@ + str_debug_text(unit@)
                + ", supported units: ns, us/µs, ms, sec, min, hours, days, weeks, months, years (and few variations)"@
        },
        DurationError::NumberOverflow => "number is too large or cannot be represented without a lack of precision (values below 1ns are not supported)"@,
        DurationError::Empty => "value was empty"@,
    }
}

impl DurationError {
    pub fn message(&self) -> (m: String)
        ensures
            m@ == duration_error_text(*self),
    {
        match self {
            DurationError::InvalidCharacter(o) => {
                let mut m = String::from_str("invalid character at ");
                push_decimal(&mut m, *o as u64);
                m
            },
            DurationError::NumberExpected(o) => {
                let mut m = String::from_str("expected number at ");
                push_decimal(&mut m, *o as u64);
                m
            },
            DurationError::UnknownUnit { unit, value, .. } => {
                if unit.as_str().is_empty() {
                    let mut m = String::from_str("time unit needed, for example ");
                    push_decimal(&mut m, *value);
                    m.append("sec or ");
                    push_decimal(&mut m, *value);
                    m.append("ms");
                    m
                } else {
                    let mut m = String::from_str("unknown time unit ");
                    let shown = str_debug(unit.as_str());
                    m.append(shown.as_str());
                    m.append(
                        ", supported units: ns, us/µs, ms, sec, min, hours, days, weeks, months, years (and few variations)",
                    );
                    m
                }
            },
            DurationError::NumberOverflow => String::from_str(
                "number is too large or cannot be represented without a lack of precision (values below 1ns are not supported)",
            ),
            DurationError::Empty => String::from_str("value was empty"),
        }
    }
}

/// The message for a duration text that could not be read: the text quoted,
/// then the reason.
pub open spec fn duration_message(text: Seq<char>, reason: Seq<char>) -> Seq<char> {
    "invalid duration '"@ + text + "': "@ + reason
}

/// What reading a duration text answers: humantime's seconds and
/// nanoseconds, or a message quoting the text with humantime's reason.
pub open spec fn parsed_duration_answer(text: Seq<char>, r: Result<(u64, u32), String>) -> bool {
    match humantime_parsed(text) {
        Ok(p) => r == Ok::<(u64, u32), String>(p),
        Err(e) => r matches Err(m) && m@ == duration_message(text, duration_error_text(e)),
    }
}

/// Reads a duration text such as `5s`, `500ms` or `2m` as whole seconds and
/// nanoseconds.
pub fn parse_duration(s: &str) -> (r: Result<(u64, u32), String>)
    requires
        duration_text_is_safe(s@),
    ensures
        parsed_duration_answer(s@, r),
        r matches Ok(p) ==> p.1 < 1_000_000_000,
{
    match humantime_parse(s) {
        Ok(p) => Ok(p),
        Err(e) => {
            let mut m = String::from_str("invalid duration '");
            m.append(s);
            m.append("': ");
            let t = e.message();
            m.append(t.as_str());
            Err(m)
        },
    }
}

/// Ten to the power `k`.
pub open spec fn pow10(k: nat) -> nat
    decreases k,
{
    if k == 0 {
        1
    } else {
        10 * pow10((k - 1) as nat)
    }
}

proof fn lemma_pow10_monotone(a: nat, b: nat)
    requires
        a <= b,
    ensures
        pow10(a) <= pow10(b),
    decreases b,
{
    if a < b {
        lemma_pow10_monotone(a, (b - 1) as nat);
    }
}

/// The digits of a text, read in a row, write a number below ten to the
/// power of their count.
proof fn lemma_digits_value_bound(bytes: Seq<u8>)
    ensures
        digits_value(bytes) < pow10(ascii_digit_count(bytes)),
    decreases bytes.len(),
{
    if bytes.len() > 0 {
        lemma_digits_value_bound(bytes.drop_last());
    }
}

/// Which refresh-interval texts are handed to humantime: it depends on the
/// text's ASCII digits alone, whatever its other characters (units, spaces,
/// points): the number they write in a row, times a year, plus the slack for
/// each digit, must stay below `u64::MAX` seconds. In particular every text
/// with at most eleven digits is handed over, so for those
/// `parse_refresh_interval` answers exactly as humantime does.
pub proof fn lemma_safe_duration_texts(text: Seq<char>)
    ensures
        duration_text_is_safe(text) <==> digits_value(encode_utf8(text)) * YEAR_SECONDS
            + ascii_digit_count(encode_utf8(text)) * SPAN_SLACK_SECONDS < u64::MAX,
        ascii_digit_count(encode_utf8(text)) <= 11 ==> duration_text_is_safe(text),
{
    let b = encode_utf8(text);
    let c = ascii_digit_count(b);
    if c <= 11 {
        lemma_digits_value_bound(b);
        lemma_pow10_monotone(c, 11);
        assert(pow10(11) == 100_000_000_000) by {
            reveal_with_fuel(pow10, 12);
        }
        assert(digits_value(b) <= 99_999_999_999);
        assert(digits_value(b) * YEAR_SECONDS <= 99_999_999_999 * 31_557_600) by (nonlinear_arith)
            requires
                digits_value(b) <= 99_999_999_999,
        ;
    }
}

/// Whether a duration text is safe to give humantime (see
/// `duration_text_is_safe`).
pub fn duration_text_is_safe_check(s: &str) -> (r: bool)
    ensures
        r == duration_text_is_safe(s@),
{
    let bytes = s.as_bytes();
    let cap: u128 = 0x1_0000_0000_0000_0000;
    let mut value: u128 = 0;
    let mut count: u128 = 0;
    let mut i: usize = 0;
    while i < bytes.len()
        invariant
            i <= bytes@.len(),
            bytes@ == encode_utf8(s@),
            cap == 0x1_0000_0000_0000_0000u128,
            value == if digits_value(bytes@.subrange(0, i as int)) < cap {
                digits_value(bytes@.subrange(0, i as int)) as int
            } else {
                cap as int
            },
            count == ascii_digit_count(bytes@.subrange(0, i as int)),
            count <= i,
        decreases bytes@.len() - i,
    {
        let ghost before = bytes@.subrange(0, i as int);
        assert(bytes@.subrange(0, i + 1).drop_last() =~= before);
        assert(bytes@.subrange(0, i + 1).last() == bytes@[i as int]);
        let b = bytes[i];
        if 48 <= b && b <= 57 {
            if value < cap {
                let next = value * 10 + (b - 48) as u128;
                value = if next < cap {
                    next
                } else {
                    cap
                };
            }
            count = count + 1;
        }
        i = i + 1;
    }
    assert(bytes@.subrange(0, i as int) =~= bytes@);
    if value >= cap {
        assert(digits_value(bytes@) * YEAR_SECONDS >= u64::MAX);
        return false;
    }
    value * YEAR_SECONDS + count * SPAN_SLACK_SECONDS < u64::MAX as u128
}

/// Reads the refresh interval. A text whose digits could add up to nearly
/// `u64::MAX` seconds is refused before humantime sees it (humantime panics
/// on some of those); any other text is read by `parse_duration`.
pub fn parse_refresh_interval(s: &str) -> (r: Result<(u64, u32), String>)
    ensures
        duration_text_is_safe(s@) ==> parsed_duration_answer(s@, r),
        !duration_text_is_safe(s@) ==> (r matches Err(m) && m@ == duration_message(
            s@,
            "duration too large"@,
        )),
        r matches Ok(p) ==> p.1 < 1_000_000_000,
{
    if !duration_text_is_safe_check(s) {
        let mut m = String::from_str("invalid duration '");
        m.append(s);
        m.append("': ");
        m.append("duration too large");
        return Err(m);
    }
    parse_duration(s)
}

} // verus!