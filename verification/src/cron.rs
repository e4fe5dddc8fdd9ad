//! Cron scheduling: job records, schedule arithmetic, cron expressions, and
//! the bookkeeping that the scheduler loop applies after each dispatch.

use vstd::prelude::*;
use chrono::Datelike;
use chrono::Timelike;
use crate::text::chars_of;
use crate::text::parse_uint;
use crate::text::parse_uint_range;
use crate::split::split_char;
use crate::split::split_char_ranges;
use crate::split::words;
use crate::split::word_ranges;

verus! {

/// When a job runs.
#[derive(Debug, Clone)]
pub enum CronSchedule {
    /// Once, at a UNIX time in milliseconds.
    At { at_ms: i64 },
    /// Repeatedly, every `every_ms` milliseconds.
    Every { every_ms: i64 },
    /// On the minutes a five-field cron expression selects (UTC).
    Cron { expr: String },
}

/// What a job sends when it fires.
#[derive(Debug, Clone)]
pub struct CronPayload {
    pub message: String,
    pub channel: String,
    pub chat_id: String,
}

/// Run-time state of a job.
#[derive(Debug, Clone)]
pub struct CronJobState {
    pub next_run_at_ms: Option<i64>,
    pub last_run_at_ms: Option<i64>,
    pub last_status: Option<String>,
    pub last_error: Option<String>,
    pub consecutive_errors: u32,
    pub last_duration_ms: Option<i64>,
}

impl Default for CronJobState {
    fn default() -> (r: Self)
        ensures
            r.next_run_at_ms is None,
            r.last_run_at_ms is None,
            r.last_status is None,
            r.last_error is None,
            r.consecutive_errors == 0,
            r.last_duration_ms is None,
    {
        CronJobState {
            next_run_at_ms: None,
            last_run_at_ms: None,
            last_status: None,
            last_error: None,
            consecutive_errors: 0,
            last_duration_ms: None,
        }
    }
}

/// A scheduled job.
#[derive(Debug, Clone)]
pub struct CronJob {
    pub id: String,
    pub name: String,
    pub enabled: bool,
    pub schedule: CronSchedule,
    pub payload: CronPayload,
    pub state: CronJobState,
    pub created_at_ms: i64,
    pub updated_at_ms: i64,
    pub delete_after_run: bool,
    /// Optional per-job dispatch timeout in seconds (overrides the default).
    pub timeout_secs: Option<u64>,
}

/// The persisted set of jobs.
#[derive(Debug, Clone)]
pub struct CronStore {
    pub version: u32,
    pub jobs: Vec<CronJob>,
}

impl Default for CronStore {
    fn default() -> (r: Self)
        ensures
            r.version == 1,
            r.jobs@.len() == 0,
    {
        CronStore { version: 1, jobs: Vec::new() }
    }
}

/// Policy for schedules that fell due while the process was down.
#[derive(Debug, Clone, Copy, PartialEq, Eq, Structural)]
pub enum OnMiss {
    /// Skip missed runs and reschedule to the next future time.
    Skip,
    /// Run one missed occurrence at once, then reschedule.
    RunOnce,
}

impl Default for OnMiss {
    fn default() -> (r: Self)
        ensures
            r == OnMiss::Skip,
    {
        OnMiss::Skip
    }
}

/// Dispatch timeout used when a job sets none (milliseconds).
pub const DEFAULT_DISPATCH_TIMEOUT_MS: u64 = 5_000;

/// If a job's last run lies within this window after its scheduled time, the
/// run is taken as already dispatched (crash-recovery guard).
pub const DEDUP_WINDOW_MS: i64 = 60_000;

/// Retry delay after consecutive failures: 30 s, 1 min, 5 min, 15 min, then 1 h.
pub open spec fn backoff_schedule(consecutive_errors: u32) -> i64 {
    if consecutive_errors == 0 {
        0
    } else if consecutive_errors == 1 {
        30_000
    } else if consecutive_errors == 2 {
        60_000
    } else if consecutive_errors == 3 {
        300_000
    } else if consecutive_errors == 4 {
        900_000
    } else {
        3_600_000
    }
}

/// Dispatch timeout in milliseconds: the job's own timeout in seconds times
/// 1000 (saturating), or the default.
pub fn dispatch_timeout_ms(timeout_secs: Option<u64>) -> (r: u64)
    ensures
        r == match timeout_secs {
            Some(secs) => if secs * 1000 <= u64::MAX {
                (secs * 1000) as u64
            } else {
                u64::MAX
            },
            None => DEFAULT_DISPATCH_TIMEOUT_MS,
        },
{
    match timeout_secs {
        Some(secs) => match secs.checked_mul(1000) {
            Some(v) => v,
            None => u64::MAX,
        },
        None => DEFAULT_DISPATCH_TIMEOUT_MS,
    }
}

/// Whether `s` is the status text `ok`.
pub open spec fn is_ok_status(s: Option<String>) -> bool {
    s matches Some(t) && t@ == seq!['o', 'k']
}

/// Whether a string holds exactly `ok`.
pub fn status_is_ok(s: &Option<String>) -> (b: bool)
    ensures
        b == is_ok_status(*s),
{
    match s {
        Some(t) => {
            let v = chars_of(t.as_str());
            if v.len() == 2 && v[0] == 'o' && v[1] == 'k' {
                assert(v@ =~= seq!['o', 'k']);
                true
            } else {
                false
            }
        },
        None => false,
    }
}

/// Whether a missed run due at `next_run_at_ms` was in fact already
/// dispatched: the job last ran successfully, at or after that time and
/// less than `DEDUP_WINDOW_MS` later.
pub open spec fn skip_missed(job: CronJob, next_run_at_ms: i64) -> bool {
    match job.state.last_run_at_ms {
        Some(last) => is_ok_status(job.state.last_status) && 0 <= last - next_run_at_ms
            < DEDUP_WINDOW_MS,
        None => false,
    }
}

pub fn should_skip_missed_dispatch(job: &CronJob, next_run_at_ms: i64) -> (b: bool)
    ensures
        b == skip_missed(*job, next_run_at_ms),
{
    let last_run_at_ms = match job.state.last_run_at_ms {
        Some(v) => v,
        None => return false,
    };
    if !status_is_ok(&job.state.last_status) {
        return false;
    }
    let delta_ms: i128 = (last_run_at_ms as i128) - (next_run_at_ms as i128);
    delta_ms >= 0 && delta_ms < (DEDUP_WINDOW_MS as i128)
}

/// Retry delay in milliseconds after `consecutive_errors` failures in a row.
pub fn error_backoff_ms(consecutive_errors: u32) -> (r: i64)
    ensures
        r == backoff_schedule(consecutive_errors),
{
    if consecutive_errors == 0 {
        return 0;
    }
    let schedule: [i64; 5] = [30_000, 60_000, 5 * 60_000, 15 * 60_000, 60 * 60_000];
    let idx: usize = if consecutive_errors - 1 < 4 {
        (consecutive_errors - 1) as usize
    } else {
        4
    };
    schedule[idx]
}

/// The backoff never shrinks as failures accumulate, and never exceeds an hour.
pub proof fn lemma_backoff_monotone(a: u32, b: u32)
    requires
        a <= b,
    ensures
        backoff_schedule(a) <= backoff_schedule(b),
        0 <= backoff_schedule(b) <= 3_600_000,
{
}

// ---------------------------------------------------------------------------
// Cron expressions
// ---------------------------------------------------------------------------

/// `min, min+1, ..., max`.
pub open spec fn range_values(min: u32, max: u32) -> Seq<u32> {
    if min <= max {
        Seq::new((max - min + 1) as nat, |k: int| (min + k) as u32)
    } else {
        Seq::<u32>::empty()
    }
}

/// `min, min+step, min+2*step, ...` up to `max`.
pub open spec fn stepped_values(min: u32, max: u32, step: nat) -> Seq<u32> {
    if min <= max && step > 0 {
        Seq::new(((max - min) / (step as int) + 1) as nat, |k: int| (min + k * step) as u32)
    } else {
        Seq::<u32>::empty()
    }
}

/// The values of a comma-separated list, each a `u32` within `[min, max]`.
pub open spec fn list_values(parts: Seq<Seq<char>>, min: u32, max: u32) -> Option<Seq<u32>>
    decreases parts.len(),
{
    if parts.len() == 0 {
        Some(Seq::<u32>::empty())
    } else {
        match list_values(parts.drop_last(), min, max) {
            Some(vs) => match parse_uint(parts.last(), u32::MAX as nat) {
                Some(v) => if min <= v <= max {
                    Some(vs.push(v as u32))
                } else {
                    None
                },
                None => None,
            },
            None => None,
        }
    }
}

/// The values one cron field selects: `*` (every value in range), `*/n`
/// (every n-th value from `min`, n > 0), or a comma-separated list of values
/// within range.
pub open spec fn cron_field_values(f: Seq<char>, min: u32, max: u32) -> Option<Seq<u32>> {
    if f == seq!['*'] {
        Some(range_values(min, max))
    } else if f.len() >= 2 && f[0] == '*' && f[1] == '/' {
        match parse_uint(f.skip(2), u32::MAX as nat) {
            Some(step) => if step == 0 {
                None
            } else {
                Some(stepped_values(min, max, step))
            },
            None => None,
        }
    } else {
        match list_values(split_char(f, ','), min, max) {
            Some(vs) => if vs.len() == 0 {
                None
            } else {
                Some(vs)
            },
            None => None,
        }
    }
}

/// Values of `v[lo..hi]` read as a cron field.
fn cron_field_range(v: &Vec<char>, lo: usize, hi: usize, min: u32, max: u32) -> (r: Option<
    Vec<u32>,
>)
    requires
        lo <= hi <= v@.len(),
    ensures
        match cron_field_values(v@.subrange(lo as int, hi as int), min, max) {
            Some(vs) => r matches Some(x) && x@ == vs,
            None => r is None,
        },
{
    let ghost f = v@.subrange(lo as int, hi as int);
    if hi - lo == 1 && v[lo] == '*' {
        assert(f =~= seq!['*']);
        let mut out: Vec<u32> = Vec::new();
        if min <= max {
            let mut x = min;
            while x <= max
                invariant
                    v@.subrange(lo as int, hi as int) =~= seq!['*'],
                    min <= x,
                    min <= max,
                    x <= max + 1,
                    out@ =~= range_values(min, max).take((x - min) as int),
                decreases max + 1 - x,
            {
                assert(range_values(min, max)[(x - min) as int] == x);
                assert(range_values(min, max).take((x - min) as int).push(x) =~= range_values(
                    min,
                    max,
                ).take((x - min + 1) as int));
                out.push(x);
                if x == max {
                    assert(range_values(min, max).take((x - min + 1) as int) =~= range_values(
                        min,
                        max,
                    ));
                    return Some(out);
                }
                x += 1;
            }
        }
        assert(out@ =~= range_values(min, max));
        return Some(out);
    }
    assert(f != seq!['*']) by {
        if f =~= seq!['*'] {
            assert(f.len() == 1);
            assert(v@[lo as int] == f[0]);
        }
    }
    if hi - lo >= 2 && v[lo] == '*' && v[lo + 1] == '/' {
        assert(f.skip(2) =~= v@.subrange(lo + 2, hi as int));
        let step = match parse_uint_range(v, lo + 2, hi, u32::MAX as u64) {
            Some(s) => s as u32,
            None => return None,
        };
        if step == 0 {
            return None;
        }
        let mut out: Vec<u32> = Vec::new();
        if min <= max {
            let ghost n = ((max - min) / (step as int) + 1) as nat;
            let ghost target = stepped_values(min, max, step as nat);
            let mut x: u64 = min as u64;
            let mut k: u64 = 0;
            while x <= max as u64
                invariant
                    min <= max,
                    step > 0,
                    x == min + k * step,
                    k <= n,
                    n == ((max - min) / (step as int) + 1) as nat,
                    target == stepped_values(min, max, step as nat),
                    x <= max as u64 ==> k < n,
                    x > max as u64 ==> k == n,
                    out@ =~= target.take(k as int),
                decreases n - k,
            {
                proof {
                    assert(k < n);
                    assert(target[k as int] == (min + k * step) as u32);
                    assert(out@.push(x as u32) =~= target.take(k + 1));
                    let kk = k + 1;
                    assert((max - min) / (step as int) * step <= max - min) by (nonlinear_arith)
                        requires
                            step > 0,
                            max >= min,
                    ;
                    assert((max - min) < ((max - min) / (step as int) + 1) * step) by (
                    nonlinear_arith)
                        requires
                            step > 0,
                            max >= min,
                    ;
                    if kk < n {
                        assert(min + kk * step <= max) by (nonlinear_arith)
                            requires
                                kk < ((max - min) / (step as int) + 1),
                                (max - min) / (step as int) * step <= max - min,
                                step > 0,
                        ;
                    } else {
                        assert(min + kk * step > max) by (nonlinear_arith)
                            requires
                                kk == ((max - min) / (step as int) + 1),
                                (max - min) < ((max - min) / (step as int) + 1) * step,
                                step > 0,
                        ;
                    }
                    assert(min + kk * step == x + step) by (nonlinear_arith)
                        requires
                            x == min + k * step,
                            kk == k + 1,
                    ;
                }
                out.push(x as u32);
                x = x + step as u64;
                k = k + 1;
            }
            assert(target.take(n as int) =~= target);
        }
        assert(out@ =~= stepped_values(min, max, step as nat));
        return Some(out);
    }
    assert(!(f.len() >= 2 && f[0] == '*' && f[1] == '/')) by {
        if f.len() >= 2 && f[0] == '*' && f[1] == '/' {
            assert(f[0] == v@[lo as int]);
            assert(f[1] == v@[lo + 1]);
        }
    }
    let parts = split_char_ranges(v, lo, hi, ',');
    let ghost ps = split_char(f, ',');
    let mut out: Vec<u32> = Vec::new();
    let mut i: usize = 0;
    while i < parts.len()
        invariant
            i <= parts@.len(),
            lo <= hi <= v@.len(),
            f == v@.subrange(lo as int, hi as int),
            f != seq!['*'],
            !(f.len() >= 2 && f[0] == '*' && f[1] == '/'),
            ps == split_char(f, ','),
            parts@.len() == ps.len(),
            ps == split_char(v@.subrange(lo as int, hi as int), ','),
            forall|k: int|
                0 <= k < parts@.len() ==> lo <= (#[trigger] parts@[k]).0 <= parts@[k].1 <= hi
                    && v@.subrange(parts@[k].0 as int, parts@[k].1 as int) == ps[k],
            list_values(ps.take(i as int), min, max) == Some(out@),
        decreases parts@.len() - i,
    {
        let (a, b) = parts[i];
        assert(parts@[i as int] == (a, b));
        assert(lo <= a <= b <= hi);
        assert(v@.subrange(a as int, b as int) == ps[i as int]);
        assert(ps.take(i + 1).drop_last() =~= ps.take(i as int));
        assert(ps.take(i + 1).last() == ps[i as int]);
        let val = match parse_uint_range(v, a, b, u32::MAX as u64) {
            Some(x) => x,
            None => {
                proof {
                    lemma_list_values_prefix_none(ps, (i + 1) as int, min, max);
                }
                return None;
            },
        };
        if !(min as u64 <= val && val <= max as u64) {
            proof {
                lemma_list_values_prefix_none(ps, (i + 1) as int, min, max);
            }
            return None;
        }
        out.push(val as u32);
        i += 1;
    }
    assert(ps.take(parts@.len() as int) =~= ps);
    if out.len() == 0 {
        return None;
    }
    Some(out)
}

proof fn lemma_list_values_prefix_none(ps: Seq<Seq<char>>, k: int, min: u32, max: u32)
    requires
        0 <= k <= ps.len(),
        list_values(ps.take(k), min, max) is None,
    ensures
        list_values(ps, min, max) is None,
    decreases ps.len() - k,
{
    if k < ps.len() {
        assert(ps.take(k + 1).drop_last() =~= ps.take(k));
        lemma_list_values_prefix_none(ps, k + 1, min, max);
    } else {
        assert(ps.take(k) =~= ps);
    }
}

/// Parses one cron field against the range `[min, max]`.
pub fn parse_cron_field(field: &str, min: u32, max: u32) -> (r: Option<Vec<u32>>)
    ensures
        match cron_field_values(field@, min, max) {
            Some(vs) => r matches Some(x) && x@ == vs,
            None => r is None,
        },
{
    let v = chars_of(field);
    assert(v@.subrange(0, v@.len() as int) =~= v@);
    cron_field_range(&v, 0, v.len(), min, max)
}

/// The five value sets of a cron expression: minute (0-59), hour (0-23),
/// day of month (1-31), month (1-12), day of week (0-6, Sunday = 0). The
/// expression must consist of exactly five whitespace-separated fields.
pub open spec fn cron_spec(expr: Seq<char>) -> Option<
    (Seq<u32>, Seq<u32>, Seq<u32>, Seq<u32>, Seq<u32>),
> {
    let w = words(expr);
    if w.len() != 5 {
        None
    } else {
        match (
            cron_field_values(w[0], 0, 59),
            cron_field_values(w[1], 0, 23),
            cron_field_values(w[2], 1, 31),
            cron_field_values(w[3], 1, 12),
            cron_field_values(w[4], 0, 6),
        ) {
            (Some(a), Some(b), Some(c), Some(d), Some(e)) => Some((a, b, c, d, e)),
            _ => None,
        }
    }
}

// ---------------------------------------------------------------------------
// Calendar fields (chrono)
// ---------------------------------------------------------------------------

/// The day of month and month of the proleptic Gregorian date `days` days
/// after 1970-01-01 (days counted back for negative values): the civil
/// calendar computed through 400-year eras starting on March 1.
pub open spec fn civil_day_month(days: int) -> (int, int) {
    let doe = (days + 719_468) % 146_097;
    let yoe = (doe - doe / 1_460 + doe / 36_524 - doe / 146_096) / 365;
    let doy = doe - (365 * yoe + yoe / 4 - yoe / 100);
    let mp = (5 * doy + 2) / 153;
    let d = doy - (153 * mp + 2) / 5 + 1;
    let m = if mp < 10 {
        mp + 3
    } else {
        mp - 9
    };
    (d, m)
}

/// Days in month `m`, February counted with its leap day.
pub open spec fn max_month_days(m: int) -> int {
    if m == 2 {
        29
    } else if m == 4 || m == 6 || m == 9 || m == 11 {
        30
    } else {
        31
    }
}

/// Every civil date has a month from 1 to 12 and a day within that month.
pub proof fn lemma_civil_day_month_valid(days: int)
    ensures
        1 <= civil_day_month(days).1 <= 12,
        1 <= civil_day_month(days).0 <= max_month_days(civil_day_month(days).1),
{
    let doe = (days + 719_468) % 146_097;
    let yoe = (doe - doe / 1_460 + doe / 36_524 - doe / 146_096) / 365;
    let doy = doe - (365 * yoe + yoe / 4 - yoe / 100);
    assert(0 <= doe < 146_097);
    assert(0 <= doy <= 365);
}

/// The UTC calendar fields of a UNIX time in milliseconds, as chrono computes
/// them: minute, hour, day of month, month, day of week counted from Sunday;
/// `None` outside chrono's supported range.
pub uninterp spec fn utc_fields(ts_ms: i64) -> Option<(u32, u32, u32, u32, u32)>;

/// The UTC calendar fields of a UNIX time in milliseconds: minute, hour,
/// day of month, month, and day of week counted from Sunday, for a day of
/// 86,400,000 ms starting 1970-01-01 (a Thursday) in the proleptic
/// Gregorian calendar.
pub open spec fn civil_fields(ts_ms: int) -> (u32, u32, u32, u32, u32) {
    let days = ts_ms / 86_400_000;
    let dm = civil_day_month(days);
    (
        ((ts_ms / 60_000) % 60) as u32,
        ((ts_ms / 3_600_000) % 24) as u32,
        dm.0 as u32,
        dm.1 as u32,
        ((days + 4) % 7) as u32,
    )
}

/// `chrono::DateTime::<Utc>::from_timestamp_millis`, then `minute`, `hour`,
/// `day`, `month` and `weekday().num_days_from_sunday()`.
///
/// Claims: whether there is a result is `utc_fields(ts_ms)` (chrono supports
/// years -262144 to 262143): it is `Some` for times within about 253,000
/// years of 1970 and `None` beyond about 266,000 years; the fields are the
/// civil calendar's (`civil_fields`), chrono's calendar being the proleptic
/// Gregorian one in UTC.
#[verifier::external_body]
fn utc_fields_of(ts_ms: i64) -> (r: Option<(u32, u32, u32, u32, u32)>)
    ensures
        r == utc_fields(ts_ms),
        -8_000_000_000_000_000 <= ts_ms <= 8_000_000_000_000_000 ==> r is Some,
        r is Some ==> -8_400_000_000_000_000 <= ts_ms <= 8_400_000_000_000_000,
        r matches Some(f) ==> f == civil_fields(ts_ms as int),
{
    match chrono::DateTime::from_timestamp_millis(ts_ms) {
        Some(d) => Some((d.minute(), d.hour(), d.day(), d.month(), d.weekday().num_days_from_sunday())),
        None => None,
    }
}

/// Number of minutes after the first candidate that the search covers (366 days).
pub open spec fn search_minutes() -> int {
    527_040int
}

/// The first candidate minute strictly after `now`: the start of the next minute.
pub open spec fn first_candidate(now: i64) -> int {
    (now as int / 60_000) * 60_000 + 60_000
}

/// Whether the minute starting at `t` is selected by all five field sets.
pub open spec fn cron_selects(c: (Seq<u32>, Seq<u32>, Seq<u32>, Seq<u32>, Seq<u32>), t: int) -> bool {
    &&& i64::MIN <= t <= i64::MAX
    &&& utc_fields(t as i64) is Some
    &&& c.0.contains(civil_fields(t).0)
    &&& c.1.contains(civil_fields(t).1)
    &&& c.2.contains(civil_fields(t).2)
    &&& c.3.contains(civil_fields(t).3)
    &&& c.4.contains(civil_fields(t).4)
}


/// Whether the `j`-th candidate minute after `now` is selected.
pub open spec fn selects_at(c: (Seq<u32>, Seq<u32>, Seq<u32>, Seq<u32>, Seq<u32>), now: i64, j: int) -> bool {
    cron_selects(c, first_candidate(now) + j * 60_000)
}

/// Whether `k` is the first minute offset (within the search window) at which
/// the expression fires after `now`.
pub open spec fn first_hit(c: (Seq<u32>, Seq<u32>, Seq<u32>, Seq<u32>, Seq<u32>), now: i64, k: int) -> bool {
    &&& 0 <= k <= search_minutes()
    &&& selects_at(c, now, k)
    &&& forall|j: int| 0 <= j < k ==> !#[trigger] selects_at(c, now, j)
}

/// The offset of the first selected minute (meaningful when there is one).
pub open spec fn first_hit_index(c: (Seq<u32>, Seq<u32>, Seq<u32>, Seq<u32>, Seq<u32>), now: i64) -> int {
    choose|k: int| first_hit(c, now, k)
}

/// The next run of a cron expression after `now`: the first minute start
/// after `now`, within 366 days of the next minute, whose UTC minute, hour,
/// day, month and weekday are all selected; `None` when the expression is
/// invalid, `now` is outside chrono's range, or no minute in the window is
/// selected.
pub open spec fn cron_next(expr: Seq<char>, now: i64) -> Option<int> {
    let c = cron_spec(expr).unwrap();
    if cron_spec(expr) is Some && utc_fields(now) is Some && exists|k: int| first_hit(c, now, k) {
        Some(first_candidate(now) + first_hit_index(c, now) * 60_000)
    } else {
        None
    }
}

proof fn lemma_first_hit_unique(
    c: (Seq<u32>, Seq<u32>, Seq<u32>, Seq<u32>, Seq<u32>),
    now: i64,
    k1: int,
    k2: int,
)
    requires
        first_hit(c, now, k1),
        first_hit(c, now, k2),
    ensures
        k1 == k2,
{
    if k1 < k2 {
        assert(!selects_at(c, now, k1));
    } else if k2 < k1 {
        assert(!selects_at(c, now, k2));
    }
}

/// Whether `v` contains `x`.
fn vec_contains_u32(v: &Vec<u32>, x: u32) -> (b: bool)
    ensures
        b == v@.contains(x),
{
    let mut i: usize = 0;
    while i < v.len()
        invariant
            i <= v@.len(),
            forall|m: int| 0 <= m < i ==> v@[m] != x,
        decreases v@.len() - i,
    {
        if v[i] == x {
            assert(v@[i as int] == x);
            return true;
        }
        i += 1;
    }
    false
}

/// The next UNIX time (ms) at which a cron expression fires after `now`.
pub fn next_run_from_cron_expr(expr: &str, now: i64) -> (r: Option<i64>)
    requires
        now <= 8_000_000_000_000_000,
    ensures
        match cron_next(expr@, now) {
            Some(t) => r == Some(t as i64),
            None => r is None,
        },
{
    let v = chars_of(expr);
    let fields = word_ranges(&v, 0, v.len());
    assert(v@.subrange(0, v@.len() as int) =~= v@);
    let ghost w = words(expr@);
    if fields.len() != 5 {
        return None;
    }
    let minutes = match cron_field_range(&v, fields[0].0, fields[0].1, 0, 59) {
        Some(x) => x,
        None => return None,
    };
    let hours = match cron_field_range(&v, fields[1].0, fields[1].1, 0, 23) {
        Some(x) => x,
        None => return None,
    };
    let dom = match cron_field_range(&v, fields[2].0, fields[2].1, 1, 31) {
        Some(x) => x,
        None => return None,
    };
    let month = match cron_field_range(&v, fields[3].0, fields[3].1, 1, 12) {
        Some(x) => x,
        None => return None,
    };
    let dow = match cron_field_range(&v, fields[4].0, fields[4].1, 0, 6) {
        Some(x) => x,
        None => return None,
    };
    let ghost c = (minutes@, hours@, dom@, month@, dow@);
    assert(cron_spec(expr@) == Some(c));
    if utc_fields_of(now).is_none() {
        return None;
    }
    let shifted: u64 = (now as i128 + 9_000_000_000_000_000i128) as u64;
    let rem: u64 = shifted % 60_000;
    proof {
        let x = now as int;
        assert((x + 9_000_000_000_000_000) % 60_000 == x % 60_000) by (nonlinear_arith);
        assert(x == (x / 60_000) * 60_000 + x % 60_000) by (nonlinear_arith);
    }
    let floor: i64 = now - rem as i64;
    assert(floor == (now as int / 60_000) * 60_000);
    let first = floor + 60_000;
    let limit = first + 366 * 24 * 60 * 60_000;
    let mut candidate = first;
    let ghost mut k: int = 0;
    while candidate <= limit
        invariant
            candidate == first + k * 60_000,
            first == first_candidate(now),
            limit == first + search_minutes() * 60_000,
            -8_400_000_000_000_000 <= first <= 8_000_000_000_000_060_000,
            0 <= k <= search_minutes() + 1,
            forall|j: int| 0 <= j < k ==> !#[trigger] selects_at(c, now, j),
            c == (minutes@, hours@, dom@, month@, dow@),
            utc_fields(now) is Some,
            cron_spec(expr@) == Some(c),
        decreases search_minutes() + 1 - k,
    {
        if let Some(f) = utc_fields_of(candidate) {
            if vec_contains_u32(&minutes, f.0) && vec_contains_u32(&hours, f.1)
                && vec_contains_u32(&dom, f.2) && vec_contains_u32(&month, f.3)
                && vec_contains_u32(&dow, f.4) {
                proof {
                    assert(candidate as int == first_candidate(now) + k * 60_000);
                    assert(utc_fields(candidate) == Some(f));
                    assert(cron_selects(c, candidate as int));
                    assert(selects_at(c, now, k));
                    assert(first_hit(c, now, k));
                    lemma_first_hit_unique(c, now, k, first_hit_index(c, now));
                    assert(first_hit_index(c, now) == k);
                    assert(cron_spec(expr@) == Some(c));
                    assert(exists|kk: int| first_hit(c, now, kk));
                    assert(utc_fields(now) is Some);
                    let cc = cron_spec(expr@).unwrap();
                    assert(cc == c);
                    assert(first_hit(cc, now, k));
                    assert(exists|kk: int| first_hit(cc, now, kk));
                    assert(first_hit_index(cc, now) == k);
                    assert(cron_next(expr@, now) == Some(first_candidate(now) + k * 60_000));
                }
                return Some(candidate);
            }
        }
        candidate = candidate + 60_000;
        proof {
            k = k + 1;
        }
    }
    assert forall|kk: int| !first_hit(c, now, kk) by {
        if first_hit(c, now, kk) {
            assert(!selects_at(c, now, kk));
        }
    }
    None
}


// ---------------------------------------------------------------------------
// Next run of a schedule
// ---------------------------------------------------------------------------

/// The next run (ms) of a schedule after `now`: a one-shot time still in the
/// future, `now` plus a positive interval, or the next minute a cron
/// expression selects.
pub open spec fn next_run_spec(schedule: CronSchedule, now: i64) -> Option<int> {
    match schedule {
        CronSchedule::At { at_ms } => if at_ms > now {
            Some(at_ms as int)
        } else {
            None
        },
        CronSchedule::Every { every_ms } => if every_ms > 0 {
            Some(now + every_ms)
        } else {
            None
        },
        CronSchedule::Cron { expr } => cron_next(expr@, now),
    }
}

/// The inputs on which computing the next run stays within machine range:
/// `now + every_ms` must fit in an `i64`, and a cron search must stay inside
/// chrono's calendar.
pub open spec fn next_run_in_range(schedule: CronSchedule, now: i64) -> bool {
    match schedule {
        CronSchedule::At { .. } => true,
        CronSchedule::Every { every_ms } => every_ms > 0 ==> now + every_ms <= i64::MAX,
        CronSchedule::Cron { .. } => now <= 8_000_000_000_000_000,
    }
}

/// `next_run_spec` as an `Option<i64>`.
pub open spec fn next_run_i64(schedule: CronSchedule, now: i64) -> Option<i64> {
    match next_run_spec(schedule, now) {
        Some(t) => Some(t as i64),
        None => None,
    }
}

/// Whether the next run of `schedule` after `now` can be computed: an
/// interval that does not overflow, a cron time within chrono's range.
pub fn schedule_in_range(schedule: &CronSchedule, now: i64) -> (b: bool)
    ensures
        b == next_run_in_range(*schedule, now),
{
    match schedule {
        CronSchedule::At { .. } => true,
        CronSchedule::Every { every_ms } => *every_ms <= 0 || now <= i64::MAX - *every_ms,
        CronSchedule::Cron { .. } => now <= 8_000_000_000_000_000,
    }
}

pub fn next_run_at(schedule: &CronSchedule, now: i64) -> (r: Option<i64>)
    requires
        next_run_in_range(*schedule, now),
    ensures
        r == next_run_i64(*schedule, now),
{
    match schedule {
        CronSchedule::At { at_ms } => {
            if *at_ms > now {
                Some(*at_ms)
            } else {
                None
            }
        },
        CronSchedule::Every { every_ms } => {
            if *every_ms > 0 {
                Some(now + *every_ms)
            } else {
                None
            }
        },
        CronSchedule::Cron { expr } => next_run_from_cron_expr(expr.as_str(), now),
    }
}

/// A computed next run always lies strictly after `now`; a cron run is on a
/// minute boundary.
pub proof fn lemma_next_run_in_future(schedule: CronSchedule, now: i64)
    ensures
        next_run_spec(schedule, now) matches Some(t) ==> t > now,
        schedule is Cron ==> (next_run_spec(schedule, now) matches Some(t) ==> t % 60_000 == 0),
{
    let x = now as int;
    assert((x / 60_000) * 60_000 + 60_000 > x) by (nonlinear_arith);
    if let CronSchedule::Cron { expr } = schedule {
        if let Some(t) = cron_next(expr@, now) {
            let c = cron_spec(expr@).unwrap();
            let k = first_hit_index(c, now);
            assert(t == (x / 60_000) * 60_000 + 60_000 + k * 60_000);
            assert(((x / 60_000) * 60_000 + 60_000 + k * 60_000) % 60_000 == 0) by (
            nonlinear_arith);
            assert(first_hit(c, now, k));
            assert(k >= 0);
            assert(k * 60_000 >= 0) by (nonlinear_arith)
                requires
                    k >= 0,
            ;
        }
    }
}

/// An expression whose days of month and months admit no date (such as the
/// 31st of February or of April) never runs.
pub proof fn lemma_cron_impossible_date_never_runs(expr: Seq<char>, now: i64)
    requires
        cron_spec(expr) is Some,
        forall|d: u32, m: u32|
            cron_spec(expr).unwrap().2.contains(d) && cron_spec(expr).unwrap().3.contains(m) ==> d
                > max_month_days(m as int),
    ensures
        cron_next(expr, now) is None,
{
    let c = cron_spec(expr).unwrap();
    if exists|k: int| first_hit(c, now, k) {
        let k = choose|k: int| first_hit(c, now, k);
        let t = first_candidate(now) + k * 60_000;
        assert(selects_at(c, now, k));
        assert(cron_selects(c, t));
        lemma_civil_day_month_valid(t / 86_400_000);
        let f = civil_fields(t);
        assert(c.2.contains(f.2) && c.3.contains(f.3));
        assert(f.2 > max_month_days(f.3 as int));
    }
}

/// Whether a cron expression currently has a next run (the clock is read
/// through `now_ms`).
pub fn is_valid_cron_expr_at(expr: &str, now: i64) -> (b: bool)
    requires
        now <= 8_000_000_000_000_000,
    ensures
        b == (cron_next(expr@, now) is Some),
{
    next_run_from_cron_expr(expr, now).is_some()
}

/// The current UNIX time in milliseconds (`chrono::Utc::now().timestamp_millis()`).
/// Nothing is claimed of the value.
#[verifier::external_body]
pub(crate) fn now_ms() -> i64 {
    chrono::Utc::now().timestamp_millis()
}

/// Whether the cron expression is valid and has a run within the next 366
/// days of the current time. An expression that does not parse is never
/// valid; a valid one has a next run at the time the clock read. Which
/// answer comes depends on that reading (`is_valid_cron_expr_at` gives it
/// for a given time).
pub fn is_valid_cron_expr(expr: &str) -> (b: bool)
    ensures
        cron_spec(expr@) is None ==> !b,
        b ==> exists|t: i64| t <= 8_000_000_000_000_000 && #[trigger] cron_next(expr@, t) is Some,
{
    let now = now_ms();
    if now > 8_000_000_000_000_000 {
        return false;
    }
    is_valid_cron_expr_at(expr, now)
}

// ---------------------------------------------------------------------------
// Scheduler bookkeeping
// ---------------------------------------------------------------------------

/// `job` with its next run replaced.
pub open spec fn with_next_run(job: CronJob, next: Option<i64>) -> CronJob {
    CronJob { state: CronJobState { next_run_at_ms: next, ..job.state }, ..job }
}

/// Whether a job is due at `now`: enabled and its next run has arrived.
pub open spec fn is_due(job: CronJob, now: i64) -> bool {
    &&& job.enabled
    &&& job.state.next_run_at_ms matches Some(n)
    &&& n <= now
}

/// Whether `idx` lists, in increasing order, exactly the positions of `s`
/// whose elements satisfy `pred`.
pub open spec fn lists_positions(idx: Seq<usize>, n: int, pred: spec_fn(int) -> bool) -> bool {
    &&& forall|a: int, b: int| 0 <= a < b < idx.len() ==> idx[a] < idx[b]
    &&& forall|a: int| 0 <= a < idx.len() ==> 0 <= #[trigger] idx[a] < n && pred(idx[a] as int)
    &&& forall|m: int| 0 <= m < n && pred(m) ==> #[trigger] idx.contains(m as usize)
}

/// Positions of the jobs that are due at `now`, in store order.
pub fn due_job_indices(jobs: &Vec<CronJob>, now: i64) -> (r: Vec<usize>)
    ensures
        lists_positions(r@, jobs@.len() as int, |m: int| is_due(jobs@[m], now)),
{
    let mut r: Vec<usize> = Vec::new();
    let mut i: usize = 0;
    while i < jobs.len()
        invariant
            i <= jobs@.len(),
            forall|a: int, b: int| 0 <= a < b < r@.len() ==> r@[a] < r@[b],
            forall|a: int| 0 <= a < r@.len() ==> 0 <= #[trigger] r@[a] < i && is_due(jobs@[r@[a] as int], now),
            forall|m: int| 0 <= m < i && is_due(jobs@[m], now) ==> #[trigger] r@.contains(m as usize),
        decreases jobs@.len() - i,
    {
        let job = &jobs[i];
        let due = job.enabled && match job.state.next_run_at_ms {
            Some(n) => n <= now,
            None => false,
        };
        let ghost r_old = r@;
        if due {
            r.push(i);
            assert(r@[r@.len() - 1] == i);
        }
        assert forall|m: int| 0 <= m < i + 1 && is_due(jobs@[m], now) implies #[trigger] r@.contains(
            m as usize,
        ) by {
            if m < i {
                assert(r_old.contains(m as usize));
                let w = choose|w: int| 0 <= w < r_old.len() && r_old[w] == m as usize;
                assert(r@[w] == m as usize);
            } else {
                assert(r@[r@.len() - 1] == i);
            }
        }
        i += 1;
    }
    r
}

/// The result of dispatching one due job.
#[derive(Debug, Clone)]
pub struct DispatchOutcome {
    pub job_id: String,
    pub ok: bool,
    pub error: Option<String>,
    pub started_at_ms: i64,
    pub ended_at_ms: i64,
}

/// Whether `m` is the first position of `jobs` whose id is `id`.
pub open spec fn first_with_id(jobs: Seq<CronJob>, id: Seq<char>, m: int) -> bool {
    &&& 0 <= m < jobs.len()
    &&& jobs[m].id@ == id
    &&& forall|k: int| 0 <= k < m ==> (#[trigger] jobs[k]).id@ != id
}

/// `a` saturating-plus one.
pub open spec fn saturating_inc(a: u32) -> u32 {
    if a < u32::MAX {
        (a + 1) as u32
    } else {
        u32::MAX
    }
}

/// The next run after a dispatch: the schedule's next run on success; after
/// a failure, the later of that (or the backoff time when there is none) and
/// the backoff time.
pub open spec fn next_after_dispatch(schedule: CronSchedule, ended: i64, ok: bool, errors: u32) -> Option<i64> {
    if ok {
        next_run_i64(schedule, ended)
    } else {
        let backoff_next = ended + backoff_schedule(errors);
        let base = match next_run_spec(schedule, ended) {
            Some(t) => t,
            None => backoff_next,
        };
        Some((if base >= backoff_next {
            base
        } else {
            backoff_next
        }) as i64)
    }
}

/// How a job record changes when a dispatch of it finishes.
pub open spec fn updated_by_dispatch(old: CronJob, new: CronJob, o: DispatchOutcome) -> bool {
    let errors = if o.ok {
        0u32
    } else {
        saturating_inc(old.state.consecutive_errors)
    };
    &&& new.id == old.id
    &&& new.name == old.name
    &&& new.schedule == old.schedule
    &&& new.payload == old.payload
    &&& new.created_at_ms == old.created_at_ms
    &&& new.delete_after_run == old.delete_after_run
    &&& new.timeout_secs == old.timeout_secs
    &&& new.updated_at_ms == o.ended_at_ms
    &&& new.state.last_run_at_ms == Some(o.started_at_ms)
    &&& new.state.last_duration_ms == Some(
        (if o.ended_at_ms - o.started_at_ms >= 0 {
            o.ended_at_ms - o.started_at_ms
        } else {
            0
        }) as i64,
    )
    &&& new.state.last_status matches Some(st) && st@ == (if o.ok {
        seq!['o', 'k']
    } else {
        seq!['e', 'r', 'r', 'o', 'r']
    })
    &&& new.state.last_error == o.error
    &&& new.state.consecutive_errors == errors
    &&& if old.schedule is At {
        !new.enabled && new.state.next_run_at_ms is None
    } else {
        new.enabled == old.enabled && new.state.next_run_at_ms == next_after_dispatch(
            old.schedule,
            o.ended_at_ms,
            o.ok,
            errors,
        )
    }
}

/// A failed dispatch of a recurring job keeps the job as enabled as it was,
/// records the failure (`last_status` "error", one more consecutive error,
/// saturating), and puts its next run no earlier than the backoff for that
/// many errors after the dispatch ended: at least 30 seconds later.
pub proof fn lemma_failed_dispatch_backs_off(old: CronJob, new: CronJob, o: DispatchOutcome)
    requires
        updated_by_dispatch(old, new, o),
        !o.ok,
        !(old.schedule is At),
        sane_time(o.ended_at_ms),
        next_run_in_range(old.schedule, o.ended_at_ms),
    ensures
        new.enabled == old.enabled,
        new.state.consecutive_errors == saturating_inc(old.state.consecutive_errors),
        new.state.last_status matches Some(st) && st@ == "error"@,
        new.state.next_run_at_ms matches Some(t) && t >= o.ended_at_ms + backoff_schedule(
            new.state.consecutive_errors,
        ) && t >= o.ended_at_ms + 30_000,
{
    reveal_strlit("error");
    assert(seq!['e', 'r', 'r', 'o', 'r'] =~= "error"@);
    let errors = new.state.consecutive_errors;
    lemma_backoff_monotone(1, errors);
    if let CronSchedule::Cron { expr } = old.schedule {
        if let Some(t) = cron_next(expr@, o.ended_at_ms) {
            let c = cron_spec(expr@).unwrap();
            let k = first_hit_index(c, o.ended_at_ms);
            assert(first_hit(c, o.ended_at_ms, k));
            assert(selects_at(c, o.ended_at_ms, k));
        }
    }
}

/// Times the scheduler works with lie well inside chrono's range.
pub open spec fn sane_time(t: i64) -> bool {
    -8_000_000_000_000_000 <= t <= 8_000_000_000_000_000
}

/// The status text a dispatch records.
fn status_text(ok: bool) -> (s: String)
    ensures
        s@ == (if ok {
            seq!['o', 'k']
        } else {
            seq!['e', 'r', 'r', 'o', 'r']
        }),
{
    let mut s = String::new();
    if ok {
        crate::text::push_char(&mut s, 'o');
        crate::text::push_char(&mut s, 'k');
        assert(s@ =~= seq!['o', 'k']);
    } else {
        crate::text::push_char(&mut s, 'e');
        crate::text::push_char(&mut s, 'r');
        crate::text::push_char(&mut s, 'r');
        crate::text::push_char(&mut s, 'o');
        crate::text::push_char(&mut s, 'r');
        assert(s@ =~= seq!['e', 'r', 'r', 'o', 'r']);
    }
    s
}

/// Records the outcome of a dispatch on the first job with the outcome's id
/// (nothing changes when no job has it).
pub fn apply_dispatch_outcome(jobs: &mut Vec<CronJob>, o: DispatchOutcome)
    requires
        sane_time(o.started_at_ms),
        sane_time(o.ended_at_ms),
        forall|m: int|
            first_with_id(old(jobs)@, o.job_id@, m) ==> next_run_in_range(
                #[trigger] old(jobs)@[m].schedule,
                o.ended_at_ms,
            ),
    ensures
        final(jobs)@.len() == old(jobs)@.len(),
        (forall|m: int| 0 <= m < old(jobs)@.len() ==> (#[trigger] old(jobs)@[m]).id@ != o.job_id@)
            ==> final(jobs)@ == old(jobs)@,
        forall|m: int|
            #[trigger] first_with_id(old(jobs)@, o.job_id@, m) ==> updated_by_dispatch(
                old(jobs)@[m],
                final(jobs)@[m],
                o,
            ) && forall|k: int| 0 <= k < old(jobs)@.len() && k != m ==> final(jobs)@[k] == old(
                jobs,
            )@[k],
{
    let mut i: usize = 0;
    while i < jobs.len()
        invariant
            i <= jobs@.len(),
            jobs@ == old(jobs)@,
            forall|k: int| 0 <= k < i ==> (#[trigger] jobs@[k]).id@ != o.job_id@,
        ensures
            i <= jobs@.len(),
            jobs@ == old(jobs)@,
            forall|k: int| 0 <= k < i ==> (#[trigger] jobs@[k]).id@ != o.job_id@,
            i < jobs@.len() ==> jobs@[i as int].id@ == o.job_id@,
        decreases jobs@.len() - i,
    {
        if jobs[i].id == o.job_id {
            break;
        }
        i += 1;
    }
    if i == jobs.len() {
        return;
    }
    assert(first_with_id(old(jobs)@, o.job_id@, i as int));
    let mut job = jobs.remove(i);
    let errors = if o.ok {
        0u32
    } else {
        job.state.consecutive_errors.saturating_add(1)
    };
    let duration = if o.ended_at_ms - o.started_at_ms >= 0 {
        o.ended_at_ms - o.started_at_ms
    } else {
        0
    };
    job.state.last_run_at_ms = Some(o.started_at_ms);
    job.state.last_duration_ms = Some(duration);
    job.state.last_status = Some(status_text(o.ok));
    job.state.last_error = o.error;
    job.updated_at_ms = o.ended_at_ms;
    job.state.consecutive_errors = errors;
    match job.schedule {
        CronSchedule::At { .. } => {
            job.enabled = false;
            job.state.next_run_at_ms = None;
        },
        _ => {
            if o.ok {
                job.state.next_run_at_ms = next_run_at(&job.schedule, o.ended_at_ms);
            } else {
                let backoff_next = o.ended_at_ms + error_backoff_ms(errors);
                let base_next = match next_run_at(&job.schedule, o.ended_at_ms) {
                    Some(t) => t,
                    None => backoff_next,
                };
                job.state.next_run_at_ms = Some(
                    if base_next >= backoff_next {
                        base_next
                    } else {
                        backoff_next
                    },
                );
            }
        },
    }
    jobs.insert(i, job);
    assert(jobs@ =~= old(jobs)@.update(i as int, jobs@[i as int]));
    assert forall|m: int| #[trigger] first_with_id(old(jobs)@, o.job_id@, m) implies m == i by {
        if m < i {
        } else if m > i {
            assert(old(jobs)@[i as int].id@ == o.job_id@);
        }
    }
}

/// Whether a finished one-shot job is to be dropped from the store: it ran
/// successfully, is disabled, and asked to be deleted after running.
pub open spec fn finished_one_shot(job: CronJob) -> bool {
    job.schedule is At && job.delete_after_run && !job.enabled && is_ok_status(
        job.state.last_status,
    )
}

/// Drops finished one-shot jobs, keeping the others in order.
pub fn remove_finished_one_shots(jobs: &mut Vec<CronJob>)
    ensures
        final(jobs)@ == old(jobs)@.filter(|j: CronJob| !finished_one_shot(j)),
{
    let ghost pred = |j: CronJob| !finished_one_shot(j);
    let ghost orig = jobs@;
    let mut kept: Vec<CronJob> = Vec::new();
    let mut i: usize = 0;
    let n0 = jobs.len();
    assert(orig.skip(0) =~= orig);
    while jobs.len() > 0
        invariant
            i <= orig.len(),
            orig.len() == n0,
            jobs@ == orig.skip(i as int),
            kept@ == orig.take(i as int).filter(pred),
            pred == (|j: CronJob| !finished_one_shot(j)),
        decreases jobs@.len(),
    {
        let j = jobs.remove(0);
        proof {
            assert(orig[i as int] == j);
            crate::seqs::lemma_filter_take_step(orig, pred, i as int);
            assert(jobs@ =~= orig.skip(i + 1));
        }
        let is_done = match j.schedule {
            CronSchedule::At { .. } => j.delete_after_run && !j.enabled && status_is_ok(
                &j.state.last_status,
            ),
            _ => false,
        };
        if !is_done {
            kept.push(j);
        }
        i += 1;
    }
    assert(orig.take(i as int) =~= orig);
    *jobs = kept;
}


/// What a job looks like once the scheduler has started: an enabled job
/// whose next run is missing or has passed is rescheduled from `now`; other
/// jobs are unchanged.
pub open spec fn started_job(job: CronJob, now: i64) -> CronJob {
    if job.enabled {
        match job.state.next_run_at_ms {
            Some(n) => if n <= now {
                with_next_run(job, next_run_i64(job.schedule, now))
            } else {
                job
            },
            None => with_next_run(job, next_run_i64(job.schedule, now)),
        }
    } else {
        job
    }
}

/// Whether a job missed its run while the process was down and is to be run
/// once now: enabled, due, the policy is `RunOnce`, and the run was not
/// already dispatched.
pub open spec fn run_missed_now(job: CronJob, now: i64, on_miss: OnMiss) -> bool {
    &&& job.enabled
    &&& job.state.next_run_at_ms matches Some(n)
    &&& n <= now
    &&& on_miss == OnMiss::RunOnce
    &&& !skip_missed(job, n)
}

/// On start, a disabled job is left as it is; under the `Skip` policy no
/// missed job is run; and a missed enabled job is moved to its schedule's
/// next run after `now`, which for an interval or cron schedule that has one
/// lies after `now`.
pub proof fn lemma_start_reschedules_missed(job: CronJob, now: i64, on_miss: OnMiss)
    requires
        job.enabled ==> next_run_in_range(job.schedule, now),
    ensures
        !job.enabled ==> started_job(job, now) == job,
        on_miss == OnMiss::Skip ==> !run_missed_now(job, now, on_miss),
        is_due(job, now) ==> started_job(job, now).state.next_run_at_ms == next_run_i64(job.schedule, now),
        is_due(job, now) ==> (started_job(job, now).state.next_run_at_ms matches Some(t) ==> t > now),
        is_due(job, now) ==> started_job(job, now).enabled && started_job(job, now).payload == job.payload,
{
    lemma_next_run_in_future(job.schedule, now);
    if is_due(job, now) {
        if let CronSchedule::Cron { expr } = job.schedule {
            if let Some(t) = cron_next(expr@, now) {
                let c = cron_spec(expr@).unwrap();
                let k = first_hit_index(c, now);
                assert(first_hit(c, now, k));
                assert(selects_at(c, now, k));
            }
        }
    }
}

/// Reschedules jobs when the scheduler starts, and gives the positions of the
/// missed jobs to dispatch at once.
pub fn reschedule_on_start(jobs: &mut Vec<CronJob>, now: i64, on_miss: OnMiss) -> (missed: Vec<
    usize,
>)
    requires
        forall|m: int|
            0 <= m < old(jobs)@.len() && (#[trigger] old(jobs)@[m]).enabled ==> next_run_in_range(
                old(jobs)@[m].schedule,
                now,
            ),
    ensures
        final(jobs)@.len() == old(jobs)@.len(),
        forall|m: int|
            0 <= m < old(jobs)@.len() ==> #[trigger] final(jobs)@[m] == started_job(
                old(jobs)@[m],
                now,
            ),
        lists_positions(
            missed@,
            old(jobs)@.len() as int,
            |m: int| run_missed_now(old(jobs)@[m], now, on_miss),
        ),
{
    let ghost orig = jobs@;
    let n0 = jobs.len();
    let mut out: Vec<CronJob> = Vec::new();
    let mut missed: Vec<usize> = Vec::new();
    let mut i: usize = 0;
    assert(orig.skip(0) =~= orig);
    while jobs.len() > 0
        invariant
            i <= orig.len(),
            orig.len() == n0,
            jobs@ == orig.skip(i as int),
            out@.len() == i,
            forall|m: int| 0 <= m < i ==> #[trigger] out@[m] == started_job(orig[m], now),
            forall|m: int|
                0 <= m < orig.len() && (#[trigger] orig[m]).enabled ==> next_run_in_range(
                    orig[m].schedule,
                    now,
                ),
            forall|a: int, b: int| 0 <= a < b < missed@.len() ==> missed@[a] < missed@[b],
            forall|a: int|
                0 <= a < missed@.len() ==> 0 <= #[trigger] missed@[a] < i && run_missed_now(
                    orig[missed@[a] as int],
                    now,
                    on_miss,
                ),
            forall|m: int|
                0 <= m < i && run_missed_now(orig[m], now, on_miss) ==> #[trigger] missed@.contains(
                    m as usize,
                ),
        decreases jobs@.len(),
    {
        let mut job = jobs.remove(0);
        assert(orig[i as int] == job);
        assert(jobs@ =~= orig.skip(i + 1));
        let ghost missed_old = missed@;
        if job.enabled {
            match job.state.next_run_at_ms {
                Some(next) => {
                    if next <= now {
                        if on_miss == OnMiss::RunOnce && !should_skip_missed_dispatch(&job, next) {
                            missed.push(i);
                        }
                        job.state.next_run_at_ms = next_run_at(&job.schedule, now);
                    }
                },
                None => {
                    job.state.next_run_at_ms = next_run_at(&job.schedule, now);
                },
            }
        }
        out.push(job);
        assert forall|m: int|
            0 <= m < i + 1 && run_missed_now(orig[m], now, on_miss) implies #[trigger] missed@.contains(
            m as usize,
        ) by {
            if m < i {
                assert(missed_old.contains(m as usize));
                let w = choose|w: int| 0 <= w < missed_old.len() && missed_old[w] == m as usize;
                assert(missed@[w] == m as usize);
            } else {
                assert(missed@[missed@.len() - 1] == i);
            }
        }
        i += 1;
    }
    assert(out@ =~= out@);
    *jobs = out;
    missed
}

/// Whether every enabled job's next run after `now` can be computed.
pub open spec fn schedules_in_range(jobs: Seq<CronJob>, now: i64) -> bool {
    forall|m: int| 0 <= m < jobs.len() && (#[trigger] jobs[m]).enabled ==> next_run_in_range(jobs[m].schedule, now)
}

fn all_schedules_in_range(jobs: &Vec<CronJob>, now: i64) -> (b: bool)
    ensures
        b == schedules_in_range(jobs@, now),
{
    let mut i: usize = 0;
    while i < jobs.len()
        invariant
            i <= jobs@.len(),
            forall|m: int| 0 <= m < i && (#[trigger] jobs@[m]).enabled ==> next_run_in_range(jobs@[m].schedule, now),
        decreases jobs@.len() - i,
    {
        if jobs[i].enabled && !schedule_in_range(&jobs[i].schedule, now) {
            return false;
        }
        i += 1;
    }
    true
}

/// The message of a start refused because a stored schedule would leave the
/// clock's range.
pub open spec fn out_of_range_text() -> Seq<char> {
    "a stored schedule overflows the clock"@
}

/// Starts the scheduler on what loading the store gave. A failed load is
/// returned as it is, and a stored enabled schedule whose next run cannot be
/// computed gives a configuration error: either way the scheduler is left
/// not running. Otherwise it is running, and the result is the store with
/// every job as `started_job` leaves it, with the positions of the missed
/// jobs to run once now.
pub fn start_with_store(
    running: &mut bool,
    loaded: Result<CronStore, crate::error::ZeptoError>,
    now: i64,
    on_miss: OnMiss,
) -> (r: Result<(CronStore, Vec<usize>), crate::error::ZeptoError>)
    ensures
        *final(running) == (r is Ok),
        match loaded {
            Err(e) => r == Err::<(CronStore, Vec<usize>), crate::error::ZeptoError>(e),
            Ok(s) => if schedules_in_range(s.jobs@, now) {
                r matches Ok((t, missed)) && {
                    &&& t.version == s.version
                    &&& t.jobs@.len() == s.jobs@.len()
                    &&& forall|m: int|
                        0 <= m < s.jobs@.len() ==> #[trigger] t.jobs@[m] == started_job(s.jobs@[m], now)
                    &&& lists_positions(
                        missed@,
                        s.jobs@.len() as int,
                        |m: int| run_missed_now(s.jobs@[m], now, on_miss),
                    )
                }
            } else {
                r matches Err(crate::error::ZeptoError::Config(m)) && m@ == out_of_range_text()
            },
        },
{
    match loaded {
        Err(e) => {
            *running = false;
            Err(e)
        },
        Ok(s) => {
            let mut s = s;
            if !all_schedules_in_range(&s.jobs, now) {
                *running = false;
                return Err(crate::error::ZeptoError::Config(String::from_str("a stored schedule overflows the clock")));
            }
            let missed = reschedule_on_start(&mut s.jobs, now, on_miss);
            *running = true;
            Ok((s, missed))
        },
    }
}

/// Whether a job keeps its place when jobs with `id` are removed.
pub open spec fn id_differs(job: CronJob, id: Seq<char>) -> bool {
    job.id@ != id
}

/// Removes every job whose id is `job_id`; returns whether any was removed.
pub fn remove_job_by_id(jobs: &mut Vec<CronJob>, job_id: &str) -> (removed: bool)
    ensures
        final(jobs)@ == old(jobs)@.filter(|j: CronJob| id_differs(j, job_id@)),
        removed == exists|m: int| 0 <= m < old(jobs)@.len() && (#[trigger] old(jobs)@[m]).id@ == job_id@,
{
    let ghost pred = |j: CronJob| id_differs(j, job_id@);
    let ghost orig = jobs@;
    let n0 = jobs.len();
    let mut kept: Vec<CronJob> = Vec::new();
    let mut i: usize = 0;
    let mut found = false;
    assert(orig.skip(0) =~= orig);
    while jobs.len() > 0
        invariant
            i <= orig.len(),
            orig.len() == n0,
            jobs@ == orig.skip(i as int),
            kept@ == orig.take(i as int).filter(pred),
            pred == (|j: CronJob| id_differs(j, job_id@)),
            found == exists|m: int| 0 <= m < i && (#[trigger] orig[m]).id@ == job_id@,
        decreases jobs@.len(),
    {
        let j = jobs.remove(0);
        proof {
            assert(orig[i as int] == j);
            crate::seqs::lemma_filter_take_step(orig, pred, i as int);
            assert(jobs@ =~= orig.skip(i + 1));
        }
        if crate::text::str_eq(j.id.as_str(), job_id) {
            found = true;
            assert(orig[i as int].id@ == job_id@);
        } else {
            kept.push(j);
        }
        i += 1;
    }
    assert(orig.take(i as int) =~= orig);
    *jobs = kept;
    found
}

/// The order in which jobs are listed: by next run, jobs without one last.
pub open spec fn list_key(job: CronJob) -> i64 {
    match job.state.next_run_at_ms {
        Some(n) => n,
        None => i64::MAX,
    }
}

/// `s` (sorted by `list_key`) with `x` placed after every element whose key
/// does not exceed its own.
pub open spec fn insert_by_key(s: Seq<CronJob>, x: CronJob) -> Seq<CronJob>
    decreases s.len(),
{
    if s.len() == 0 {
        seq![x]
    } else if list_key(s.last()) <= list_key(x) {
        s.push(x)
    } else {
        insert_by_key(s.drop_last(), x).push(s.last())
    }
}

/// The stable sort of `s` by `list_key`.
pub open spec fn sort_by_key(s: Seq<CronJob>) -> Seq<CronJob>
    decreases s.len(),
{
    if s.len() == 0 {
        s
    } else {
        insert_by_key(sort_by_key(s.drop_last()), s.last())
    }
}

/// Whether `s` is ordered by `list_key`.
pub open spec fn sorted_by_key(s: Seq<CronJob>) -> bool {
    forall|a: int, b: int| 0 <= a < b < s.len() ==> list_key(s[a]) <= list_key(s[b])
}

proof fn lemma_insert_by_key_at(s: Seq<CronJob>, x: CronJob, p: int)
    requires
        0 <= p <= s.len(),
        forall|k: int| p <= k < s.len() ==> list_key(#[trigger] s[k]) > list_key(x),
        p > 0 ==> list_key(s[p - 1]) <= list_key(x),
    ensures
        insert_by_key(s, x) == s.take(p).push(x) + s.skip(p),
    decreases s.len(),
{
    if s.len() == 0 {
        assert(s.take(p).push(x) + s.skip(p) =~= seq![x]);
    } else if list_key(s.last()) <= list_key(x) {
        assert(p == s.len());
        assert(s.take(p).push(x) + s.skip(p) =~= s.push(x));
    } else {
        let q = s.drop_last();
        assert(p < s.len());
        lemma_insert_by_key_at(q, x, p);
        assert(insert_by_key(q, x).push(s.last()) =~= s.take(p).push(x) + s.skip(p));
    }
}

proof fn lemma_insert_by_key_sorted(s: Seq<CronJob>, x: CronJob)
    requires
        sorted_by_key(s),
    ensures
        sorted_by_key(insert_by_key(s, x)),
        insert_by_key(s, x).len() == s.len() + 1,
        insert_by_key(s, x).to_multiset() == s.to_multiset().insert(x),
    decreases s.len(),
{
    broadcast use vstd::multiset::group_multiset_axioms, vstd::seq_lib::group_to_multiset_ensures;

    if s.len() == 0 {
        assert(insert_by_key(s, x) =~= seq![x]);
        assert(seq![x] =~= s.push(x));
    } else if list_key(s.last()) <= list_key(x) {
    } else {
        let q = s.drop_last();
        lemma_insert_by_key_sorted(q, x);
        let r = insert_by_key(q, x);
        assert forall|k: int| 0 <= k < r.len() implies list_key(#[trigger] r[k]) <= list_key(s.last()) by {
            assert(r.to_multiset().count(r[k]) > 0);
            assert(r.to_multiset() == q.to_multiset().insert(x));
            if r[k] != x {
                assert(q.to_multiset().count(r[k]) > 0);
                assert(q.contains(r[k]));
                let w = choose|w: int| 0 <= w < q.len() && q[w] == r[k];
                assert(s[w] == q[w]);
            }
        }
        assert(q.push(s.last()) =~= s);
    }
}

proof fn lemma_sort_by_key_sorted(s: Seq<CronJob>)
    ensures
        sorted_by_key(sort_by_key(s)),
        sort_by_key(s).to_multiset() == s.to_multiset(),
        sort_by_key(s).len() == s.len(),
    decreases s.len(),
{
    broadcast use vstd::multiset::group_multiset_axioms, vstd::seq_lib::group_to_multiset_ensures;

    if s.len() > 0 {
        lemma_sort_by_key_sorted(s.drop_last());
        lemma_insert_by_key_sorted(sort_by_key(s.drop_last()), s.last());
        assert(s.drop_last().push(s.last()) =~= s);
    }
}

/// Listed jobs come out ordered by their next run, and hold exactly the jobs
/// listed (as a multiset).
pub proof fn lemma_listing_sorted(s: Seq<CronJob>)
    ensures
        sorted_by_key(sort_by_key(s)),
        sort_by_key(s).to_multiset() == s.to_multiset(),
{
    lemma_sort_by_key_sorted(s);
}

/// Whether a job is listed.
pub open spec fn listed(job: CronJob, include_disabled: bool) -> bool {
    include_disabled || job.enabled
}

impl CronSchedule {
    /// A copy of the schedule.
    pub fn duplicate(&self) -> (r: Self)
        ensures
            r == *self,
    {
        match self {
            CronSchedule::At { at_ms } => CronSchedule::At { at_ms: *at_ms },
            CronSchedule::Every { every_ms } => CronSchedule::Every { every_ms: *every_ms },
            CronSchedule::Cron { expr } => CronSchedule::Cron { expr: expr.clone() },
        }
    }
}

fn copy_opt_string(s: &Option<String>) -> (r: Option<String>)
    ensures
        r == *s,
{
    match s {
        Some(t) => Some(t.clone()),
        None => None,
    }
}

impl CronJob {
    /// A copy of the job.
    pub fn duplicate(&self) -> (r: Self)
        ensures
            r == *self,
    {
        CronJob {
            id: self.id.clone(),
            name: self.name.clone(),
            enabled: self.enabled,
            schedule: self.schedule.duplicate(),
            payload: CronPayload {
                message: self.payload.message.clone(),
                channel: self.payload.channel.clone(),
                chat_id: self.payload.chat_id.clone(),
            },
            state: CronJobState {
                next_run_at_ms: self.state.next_run_at_ms,
                last_run_at_ms: self.state.last_run_at_ms,
                last_status: copy_opt_string(&self.state.last_status),
                last_error: copy_opt_string(&self.state.last_error),
                consecutive_errors: self.state.consecutive_errors,
                last_duration_ms: self.state.last_duration_ms,
            },
            created_at_ms: self.created_at_ms,
            updated_at_ms: self.updated_at_ms,
            delete_after_run: self.delete_after_run,
            timeout_secs: self.timeout_secs,
        }
    }
}

fn list_key_of(job: &CronJob) -> (k: i64)
    ensures
        k == list_key(*job),
{
    match job.state.next_run_at_ms {
        Some(n) => n,
        None => i64::MAX,
    }
}

/// The jobs to list (all, or only the enabled ones), ordered by next run with
/// jobs that have none last; jobs with equal keys keep their store order.
pub fn list_jobs(jobs: &Vec<CronJob>, include_disabled: bool) -> (r: Vec<CronJob>)
    ensures
        r@ == sort_by_key(jobs@.filter(|j: CronJob| listed(j, include_disabled))),
{
    let ghost pred = |j: CronJob| listed(j, include_disabled);
    let mut filtered: Vec<CronJob> = Vec::new();
    let mut i: usize = 0;
    while i < jobs.len()
        invariant
            i <= jobs@.len(),
            filtered@ == jobs@.take(i as int).filter(pred),
            pred == (|j: CronJob| listed(j, include_disabled)),
        decreases jobs@.len() - i,
    {
        proof {
            crate::seqs::lemma_filter_take_step(jobs@, pred, i as int);
        }
        if include_disabled || jobs[i].enabled {
            filtered.push(jobs[i].duplicate());
        }
        i += 1;
    }
    assert(jobs@.take(i as int) =~= jobs@);
    let ghost src = filtered@;
    let mut sorted: Vec<CronJob> = Vec::new();
    let mut k: usize = 0;
    let n1 = filtered.len();
    assert(src.take(0) =~= Seq::<CronJob>::empty());
    while filtered.len() > 0
        invariant
            k <= src.len(),
            src.len() == n1,
            filtered@ == src.skip(k as int),
            sorted@ == sort_by_key(src.take(k as int)),
        decreases filtered@.len(),
    {
        let x = filtered.remove(0);
        assert(src[k as int] == x);
        assert(filtered@ =~= src.skip(k + 1));
        let key = list_key_of(&x);
        let ghost before = sorted@;
        proof {
            lemma_sort_by_key_sorted(src.take(k as int));
        }
        let mut p = sorted.len();
        while p > 0 && list_key_of(&sorted[p - 1]) > key
            invariant
                p <= sorted@.len(),
                sorted@ == before,
                key == list_key(x),
                forall|q: int| p <= q < sorted@.len() ==> list_key(#[trigger] sorted@[q]) > key,
            decreases p,
        {
            p -= 1;
        }
        proof {
            lemma_insert_by_key_at(before, x, p as int);
            assert(src.take(k + 1).drop_last() =~= src.take(k as int));
            assert(src.take(k + 1).last() == x);
        }
        sorted.insert(p, x);
        assert(sorted@ =~= before.take(p as int).push(x) + before.skip(p as int));
        k += 1;
    }
    assert(src.take(k as int) =~= src);
    sorted
}

// ---------------------------------------------------------------------------
// New jobs
// ---------------------------------------------------------------------------

/// Whether `c` is a lower-case hexadecimal digit.
pub open spec fn is_lower_hex(c: char) -> bool {
    ('0' <= c <= '9') || ('a' <= c <= 'f')
}

/// Whether `s` is a version-4 UUID in hyphenated lower-case form:
/// `xxxxxxxx-xxxx-4xxx-yxxx-xxxxxxxxxxxx`, each `x` a lower-case hex digit
/// and `y` one of `8`, `9`, `a`, `b`.
pub open spec fn is_hyphenated_v4(s: Seq<char>) -> bool {
    &&& s.len() == 36
    &&& forall|i: int|
        0 <= i < 36 ==> if i == 8 || i == 13 || i == 18 || i == 23 {
            s[i] == '-'
        } else {
            is_lower_hex(#[trigger] s[i])
        }
    &&& s[14] == '4'
    &&& (s[19] == '8' || s[19] == '9' || s[19] == 'a' || s[19] == 'b')
}

/// `uuid::Uuid::new_v4().to_string()`. Random: claims only the form every
/// outcome has, the hyphenated lower-case text of a version-4, RFC 4122
/// variant UUID.
#[verifier::external_body]
fn uuid_v4_text() -> (r: String)
    ensures
        is_hyphenated_v4(r@),
{
    uuid::Uuid::new_v4().to_string()
}

/// The job id taken from a UUID's text: its first eight characters.
pub fn job_id_of(uuid_text: &str) -> (r: String)
    requires
        uuid_text@.len() >= 8,
    ensures
        r@ == uuid_text@.take(8),
{
    let v = crate::text::chars_of(uuid_text);
    crate::text::string_of_range(&v, 0, 8)
}

/// A fresh job id: the first eight characters of a random UUID, so eight
/// lower-case hex digits.
pub fn fresh_job_id() -> (r: String)
    ensures
        r@.len() == 8,
        forall|i: int| 0 <= i < 8 ==> is_lower_hex(#[trigger] r@[i]),
{
    let u = uuid_v4_text();
    let r = job_id_of(u.as_str());
    proof {
        assert forall|i: int| 0 <= i < 8 implies is_lower_hex(#[trigger] r@[i]) by {
            assert(r@[i] == u@[i]);
        }
    }
    r
}

/// A new, enabled job created at `now`, first due at the schedule's next run.
pub fn new_job(
    id: String,
    name: String,
    schedule: CronSchedule,
    payload: CronPayload,
    delete_after_run: bool,
    timeout_secs: Option<u64>,
    now: i64,
) -> (job: CronJob)
    requires
        next_run_in_range(schedule, now),
    ensures
        job.id == id,
        job.name == name,
        job.enabled,
        job.schedule == schedule,
        job.payload == payload,
        job.state.next_run_at_ms == next_run_i64(schedule, now),
        job.state.last_run_at_ms is None,
        job.state.last_status is None,
        job.state.last_error is None,
        job.state.consecutive_errors == 0,
        job.state.last_duration_ms is None,
        job.created_at_ms == now,
        job.updated_at_ms == now,
        job.delete_after_run == delete_after_run,
        job.timeout_secs == timeout_secs,
{
    let next = next_run_at(&schedule, now);
    CronJob {
        id,
        name,
        enabled: true,
        schedule,
        payload,
        state: CronJobState {
            next_run_at_ms: next,
            last_run_at_ms: None,
            last_status: None,
            last_error: None,
            consecutive_errors: 0,
            last_duration_ms: None,
        },
        created_at_ms: now,
        updated_at_ms: now,
        delete_after_run,
        timeout_secs,
    }
}

// ---------------------------------------------------------------------------
// One-shot times
// ---------------------------------------------------------------------------

/// The UNIX time in milliseconds of an RFC 3339 date-time, as chrono parses it.
pub uninterp spec fn rfc3339_millis(s: Seq<char>) -> Option<i64>;

/// `chrono::DateTime::parse_from_rfc3339`, then `timestamp_millis`.
/// Claims only that the result is `rfc3339_millis` of the text.
#[verifier::external_body]
fn parse_rfc3339_millis(input: &str) -> (r: Option<i64>)
    ensures
        r == rfc3339_millis(input@),
{
    match chrono::DateTime::parse_from_rfc3339(input) {
        Ok(dt) => Some(dt.timestamp_millis()),
        Err(_) => None,
    }
}

/// The UNIX time in milliseconds of a text read as a UTC date and time in
/// the given chrono format, as chrono parses it.
pub uninterp spec fn naive_utc_millis(s: Seq<char>, fmt: Seq<char>) -> Option<i64>;

/// The format of a one-shot time without an offset.
pub const AT_NAIVE_FORMAT: &'static str = "%Y-%m-%dT%H:%M:%S";

/// `chrono::NaiveDateTime::parse_from_str(input, fmt)`, then
/// `and_utc().timestamp_millis()`. Claims only that the result is
/// `naive_utc_millis` of the text and the format.
#[verifier::external_body]
fn parse_naive_utc_millis(input: &str, fmt: &str) -> (r: Option<i64>)
    ensures
        r == naive_utc_millis(input@, fmt@),
{
    match chrono::NaiveDateTime::parse_from_str(input, fmt) {
        Ok(naive) => Some(naive.and_utc().timestamp_millis()),
        Err(_) => None,
    }
}

/// The message of a rejected one-shot time.
pub open spec fn bad_datetime_message(input: Seq<char>) -> Seq<char> {
    "Invalid 'at' datetime '"@ + input + "'. Use RFC3339 or YYYY-MM-DDTHH:MM:SS"@
}

/// The UNIX time of a one-shot time, given its two readings: RFC 3339 first,
/// then `YYYY-MM-DDTHH:MM:SS` as UTC; a tool error when neither reads.
pub fn datetime_ms_from_readings(input: &str, rfc3339: Option<i64>, naive: Option<i64>) -> (r:
    crate::error::Result<i64>)
    ensures
        match rfc3339 {
            Some(ms) => r matches Ok(v) && v == ms,
            None => match naive {
                Some(ms) => r matches Ok(v) && v == ms,
                None => r matches Err(crate::error::ZeptoError::Tool(m)) && m@
                    == bad_datetime_message(input@),
            },
        },
{
    if let Some(ms) = rfc3339 {
        return Ok(ms);
    }
    if let Some(ms) = naive {
        return Ok(ms);
    }
    let mut m = String::from_str("Invalid 'at' datetime '");
    m.append(input);
    m.append("'. Use RFC3339 or YYYY-MM-DDTHH:MM:SS");
    Err(crate::error::ZeptoError::Tool(m))
}

/// Parses an ISO date-time into UNIX milliseconds (RFC 3339, or
/// `YYYY-MM-DDTHH:MM:SS` taken as UTC).
pub fn parse_at_datetime_ms(input: &str) -> (r: crate::error::Result<i64>)
    ensures
        match rfc3339_millis(input@) {
            Some(ms) => r matches Ok(v) && v == ms,
            None => match naive_utc_millis(input@, "%Y-%m-%dT%H:%M:%S"@) {
                Some(ms) => r matches Ok(v) && v == ms,
                None => r matches Err(crate::error::ZeptoError::Tool(m)) && m@
                    == bad_datetime_message(input@),
            },
        },
{
    let a = parse_rfc3339_millis(input);
    if a.is_some() {
        return datetime_ms_from_readings(input, a, None);
    }
    let b = parse_naive_utc_millis(input, AT_NAIVE_FORMAT);
    datetime_ms_from_readings(input, a, b)
}

} // verus!
