//! Watching a URL: the polling interval, the snapshot file name, and what a
//! new fetch means against the last snapshot.

use vstd::prelude::*;
use crate::text::chars_of;
use crate::text::trim;
use crate::text::trimmed;
use crate::text::lowercase;
use crate::text::to_lowercase;
use crate::text::parse_uint;
use crate::text::parse_uint_range;
use crate::text::decimal;
use crate::text::decimal_text;
use crate::text::str_eq;
use crate::text::utf8_len;
use std::hash::Hash;
use std::hash::Hasher;

verus! {

/// Maximum bytes read from a watched URL response.
pub const MAX_WATCH_BYTES: usize = 800000;

/// Minimum allowed interval in seconds (prevents busy loops).
pub const MIN_INTERVAL_SECS: u64 = 10;

/// Why an interval was refused.
#[derive(Debug, Clone, Copy, PartialEq, Eq, Structural)]
pub enum IntervalError {
    InvalidHours,
    InvalidMinutes,
    InvalidSeconds,
    InvalidInterval,
    /// Fewer seconds than the minimum.
    TooSmall(u64),
}

/// The message of an interval error.
pub open spec fn interval_error_text(e: IntervalError) -> Seq<char> {
    match e {
        IntervalError::InvalidHours => "Invalid hours value"@,
        IntervalError::InvalidMinutes => "Invalid minutes value"@,
        IntervalError::InvalidSeconds => "Invalid seconds value"@,
        IntervalError::InvalidInterval => "Invalid interval. Use formats like 1h, 30m, or 60s"@,
        IntervalError::TooSmall(n) => "Interval too small ("@ + decimal(n as nat)
            + "s). Minimum is 10s to avoid excessive requests."@,
    }
}

impl IntervalError {
    pub fn message(&self) -> (r: String)
        ensures
            r@ == interval_error_text(*self),
    {
        match self {
            IntervalError::InvalidHours => String::from_str("Invalid hours value"),
            IntervalError::InvalidMinutes => String::from_str("Invalid minutes value"),
            IntervalError::InvalidSeconds => String::from_str("Invalid seconds value"),
            IntervalError::InvalidInterval => String::from_str(
                "Invalid interval. Use formats like 1h, 30m, or 60s",
            ),
            IntervalError::TooSmall(n) => {
                let mut s = String::from_str("Interval too small (");
                let d = decimal_text(*n);
                s.append(d.as_str());
                s.append("s). Minimum is 10s to avoid excessive requests.");
                s
            },
        }
    }
}

/// The unit suffix of an interval and its number of seconds, with the
/// error for a bad count; a bare count is seconds.
pub open spec fn interval_unit(s: Seq<char>) -> (Seq<char>, nat, IntervalError) {
    if s.len() > 0 && s.last() == 'h' {
        (s.drop_last(), 3600, IntervalError::InvalidHours)
    } else if s.len() > 0 && s.last() == 'm' {
        (s.drop_last(), 60, IntervalError::InvalidMinutes)
    } else if s.len() > 0 && s.last() == 's' {
        (s.drop_last(), 1, IntervalError::InvalidSeconds)
    } else {
        (s, 1, IntervalError::InvalidInterval)
    }
}

/// The seconds an interval text gives, before the minimum is applied:
/// `<n>h`, `<n>m`, `<n>s` or `<n>`, after trimming and lowercasing.
pub open spec fn interval_seconds(s: Seq<char>) -> Result<nat, IntervalError> {
    let (count, unit, err) = interval_unit(crate::text::lower_text(trim(s)));
    match parse_uint(count, u64::MAX as nat) {
        Some(n) => Ok(n * unit),
        None => Err(err),
    }
}

/// Whether an interval's seconds fit in a `u64` (the count times the unit
/// does not overflow).
pub open spec fn interval_fits_spec(s: Seq<char>) -> bool {
    match interval_seconds(s) {
        Ok(n) => n <= u64::MAX,
        Err(_) => true,
    }
}

/// The outcome of parsing an interval.
pub open spec fn parse_interval_spec(s: Seq<char>) -> Result<u64, IntervalError> {
    match interval_seconds(s) {
        Ok(n) => if n < 10 {
            Err(IntervalError::TooSmall(n as u64))
        } else {
            Ok(n as u64)
        },
        Err(e) => Err(e),
    }
}

/// The count, unit and count error of an interval text.
fn split_interval(s: &str) -> (r: (Option<u64>, u64, IntervalError))
    ensures
        ({
            let (count, unit, err) = interval_unit(crate::text::lower_text(trim(s@)));
            &&& r.1 == unit
            &&& r.2 == err
            &&& match parse_uint(count, u64::MAX as nat) {
                Some(n) => r.0 == Some(n as u64),
                None => r.0 is None,
            }
        }),
{
    let t = trimmed(s);
    let l = to_lowercase(t.as_str());
    let v = chars_of(l.as_str());
    let n = v.len();
    let (end, unit, err) = if n > 0 && v[n - 1] == 'h' {
        (n - 1, 3600u64, IntervalError::InvalidHours)
    } else if n > 0 && v[n - 1] == 'm' {
        (n - 1, 60u64, IntervalError::InvalidMinutes)
    } else if n > 0 && v[n - 1] == 's' {
        (n - 1, 1u64, IntervalError::InvalidSeconds)
    } else {
        (n, 1u64, IntervalError::InvalidInterval)
    };
    assert(v@.subrange(0, end as int) =~= interval_unit(v@).0);
    let count = parse_uint_range(&v, 0, end, u64::MAX);
    (count, unit, err)
}

/// Whether parsing the interval can compute its seconds without overflow.
pub fn interval_fits(s: &str) -> (b: bool)
    ensures
        b == interval_fits_spec(s@),
{
    let (count, unit, _) = split_interval(s);
    match count {
        Some(n) => {
            assert(n <= u64::MAX / unit <==> n * unit <= u64::MAX) by (nonlinear_arith)
                requires
                    unit > 0,
            ;
            n <= u64::MAX / unit
        },
        None => true,
    }
}

/// Parse interval string like "1h", "30m", "15m", "60s" into seconds.
pub fn parse_interval(s: &str) -> (r: Result<u64, IntervalError>)
    requires
        interval_fits_spec(s@),
    ensures
        r == parse_interval_spec(s@),
{
    let (count, unit, err) = split_interval(s);
    let secs = match count {
        Some(n) => {
            assert(n * unit <= u64::MAX);
            n * unit
        },
        None => {
            return Err(err);
        },
    };
    if secs < MIN_INTERVAL_SECS {
        return Err(IntervalError::TooSmall(secs));
    }
    Ok(secs)
}

/// Every interval that parses is at least the minimum.
pub proof fn lemma_interval_at_least_minimum(s: Seq<char>)
    requires
        interval_fits_spec(s),
    ensures
        parse_interval_spec(s) matches Ok(n) ==> n >= MIN_INTERVAL_SECS,
{
}

/// The hash of a URL (`std::hash::Hash` of the text fed to
/// `std::collections::hash_map::DefaultHasher::new()`).
pub uninterp spec fn default_hash(s: Seq<char>) -> u64;

/// `DefaultHasher::new()`, the text hashed into it, then `finish()`.
#[verifier::external_body]
pub fn url_hash(url: &str) -> (h: u64)
    ensures
        h == default_hash(url@),
{
    let mut hasher = std::collections::hash_map::DefaultHasher::new();
    url.hash(&mut hasher);
    hasher.finish()
}

/// A lower-case hexadecimal digit.
pub open spec fn hex_digit(d: nat) -> char {
    if d < 10 {
        ((48 + d) as u8) as char
    } else {
        ((87 + d) as u8) as char
    }
}

/// `n` in lower-case hexadecimal without leading zeros (`{:x}`).
pub open spec fn hex(n: nat) -> Seq<char>
    decreases n,
{
    if n < 16 {
        seq![hex_digit(n)]
    } else {
        hex(n / 16).push(hex_digit(n % 16))
    }
}

fn hex_text(n: u64) -> (r: String)
    ensures
        r@ == hex(n as nat),
{
    let mut digits: Vec<char> = Vec::new();
    let mut m = n;
    // Collect digits least significant first.
    while m >= 16
        invariant
            hex(n as nat) == hex(m as nat) + digits@.reverse(),
        decreases m,
    {
        let d = (m % 16) as u8;
        let c: char = if d < 10 {
            (48u8 + d) as char
        } else {
            (87u8 + d) as char
        };
        assert(c == hex_digit((m % 16) as nat));
        assert(hex(m as nat) == hex((m / 16) as nat).push(c));
        let ghost before = digits@;
        digits.push(c);
        assert(digits@.reverse() =~= seq![c] + before.reverse());
        assert(hex((m / 16) as nat).push(c) + before.reverse() =~= hex((m / 16) as nat)
            + digits@.reverse());
        m = m / 16;
    }
    let d = m as u8;
    let c: char = if d < 10 {
        (48u8 + d) as char
    } else {
        (87u8 + d) as char
    };
    assert(c == hex_digit(m as nat));
    assert(hex(m as nat) == seq![c]);
    let ghost before = digits@;
    digits.push(c);
    assert(digits@.reverse() =~= seq![c] + before.reverse());
    let mut r = String::new();
    let mut i = digits.len();
    while i > 0
        invariant
            i <= digits@.len(),
            r@ == digits@.reverse().take((digits@.len() - i) as int),
        decreases i,
    {
        let ghost before = r@;
        crate::text::push_char(&mut r, digits[i - 1]);
        assert(digits@.reverse().take((digits@.len() - i + 1) as int) =~= before.push(digits@[i - 1]));
        i -= 1;
    }
    assert(digits@.reverse().take(digits@.len() as int) =~= digits@.reverse());
    r
}

/// The file name of a URL's snapshot: its hash in hexadecimal, `.txt`.
pub fn snapshot_file_name(url: &str) -> (r: String)
    ensures
        r@ == hex(default_hash(url@) as nat) + ".txt"@,
{
    let h = url_hash(url);
    let mut s = hex_text(h);
    s.append(".txt");
    s
}

/// What a fetch means against the previous snapshot.
#[derive(Debug, Clone, Copy, PartialEq, Eq, Structural)]
pub enum WatchOutcome {
    /// No snapshot yet: the body becomes the baseline.
    Baseline,
    /// The body differs from the snapshot.
    Changed,
    /// The body is the snapshot.
    Unchanged,
}

/// Compares a fetched body with the previous snapshot.
pub fn watch_outcome(previous: &str, body: &str) -> (r: WatchOutcome)
    ensures
        previous@.len() == 0 ==> r == WatchOutcome::Baseline,
        previous@.len() > 0 && body@ != previous@ ==> r == WatchOutcome::Changed,
        previous@.len() > 0 && body@ == previous@ ==> r == WatchOutcome::Unchanged,
{
    if previous.is_empty() {
        WatchOutcome::Baseline
    } else if !str_eq(body, previous) {
        WatchOutcome::Changed
    } else {
        WatchOutcome::Unchanged
    }
}

/// The notification text for a changed URL.
pub fn change_message(url: &str, previous: &str, body: &str) -> (r: String)
    ensures
        r@ == "URL changed: "@ + url@ + "\nPrevious: "@ + decimal(utf8_len(previous@))
            + " bytes -> New: "@ + decimal(utf8_len(body@)) + " bytes"@,
{
    let mut s = String::from_str("URL changed: ");
    s.append(url);
    s.append("\nPrevious: ");
    let a = decimal_text(previous.as_bytes().len() as u64);
    s.append(a.as_str());
    s.append(" bytes -> New: ");
    let b = decimal_text(body.as_bytes().len() as u64);
    s.append(b.as_str());
    s.append(" bytes");
    s
}

} // verus!
