//! Rate limits: the settings of the per-user limiters of the API, and the
//! per-workflow limiter of workflow starts.

use crate::error::OrbflowError;
use crate::http::{ErrorReply, ReplyShape};
use vstd::prelude::*;

verus! {

/// The settings of a per-user limiter: one request is given back after each
/// period, up to `burst` requests.
#[derive(Debug, Clone, Copy, PartialEq, Eq, Structural)]
pub struct RateLimiterLayer {
    pub period_nanos: u64,
    pub burst: u32,
}

/// A limiter's burst, counted in time, fits into 64 bits of nanoseconds.
pub open spec fn burst_fits(period_nanos: int, burst: int) -> bool {
    period_nanos > 0 && burst > 0 ==> period_nanos <= u64::MAX && period_nanos * (burst - 1)
        <= u64::MAX
}

/// `GovernorConfigBuilder::finish` of tower_governor, after the period and the
/// burst size were set: whether there is a configuration with these settings,
/// which is so unless one of them is zero. governor multiplies the two where
/// neither is zero, and gives up where the product overflows.
#[verifier::external_body]
fn governor_accepts(period_nanos: u64, burst: u32) -> (r: bool)
    requires
        burst_fits(period_nanos as int, burst as int),
    ensures
        r == (period_nanos != 0 && burst != 0),
{
    tower_governor::governor::GovernorConfigBuilder::default()
        .per_nanosecond(period_nanos)
        .burst_size(burst)
        .finish()
        .is_some()
}

/// `r` is the limiter with these settings, or the error where one of them is zero.
pub open spec fn limiter_or_error(
    r: Result<RateLimiterLayer, OrbflowError>,
    period_nanos: int,
    burst: int,
    error: Seq<char>,
) -> bool {
    if period_nanos == 0 || burst == 0 {
        r matches Err(OrbflowError::Internal(e)) && e@ == error
    } else {
        r matches Ok(l) && l.period_nanos == period_nanos && l.burst == burst
    }
}

fn limiter(period_nanos: u64, burst: u32, error: &str) -> (r: Result<
    RateLimiterLayer,
    OrbflowError,
>)
    requires
        burst_fits(period_nanos as int, burst as int),
    ensures
        limiter_or_error(r, period_nanos as int, burst as int, error@),
{
    if governor_accepts(period_nanos, burst) {
        Ok(RateLimiterLayer { period_nanos, burst })
    } else {
        Err(OrbflowError::Internal(error.to_owned()))
    }
}

fn millis_to_nanos(millis: u64) -> (r: u64)
    ensures
        millis * 1_000_000 <= u64::MAX ==> r == millis * 1_000_000,
        millis * 1_000_000 > u64::MAX ==> r == u64::MAX,
{
    if millis > 18_446_744_073_709 {
        u64::MAX
    } else {
        millis * 1_000_000
    }
}

/// The limiter of the read endpoints (GET requests).
///
/// `per_ms`: replenish interval in milliseconds (default 300).
/// `burst`: maximum burst size (default 200).
///
/// An error if one of the two is zero.
pub fn read_rate_limiter(per_ms: u64, burst: u32) -> (r: Result<RateLimiterLayer, OrbflowError>)
    requires
        burst_fits(per_ms * 1_000_000, burst as int),
    ensures
        limiter_or_error(
            r,
            per_ms * 1_000_000,
            burst as int,
            "invalid read rate limiter config"@,
        ),
{
    limiter(millis_to_nanos(per_ms), burst, "invalid read rate limiter config")
}

/// The limiter of the write endpoints (POST/PUT/DELETE).
///
/// `per_ms`: replenish interval in milliseconds (default 600).
/// `burst`: maximum burst size (default 100).
///
/// An error if one of the two is zero.
pub fn write_rate_limiter(per_ms: u64, burst: u32) -> (r: Result<RateLimiterLayer, OrbflowError>)
    requires
        burst_fits(per_ms * 1_000_000, burst as int),
    ensures
        limiter_or_error(
            r,
            per_ms * 1_000_000,
            burst as int,
            "invalid write rate limiter config"@,
        ),
{
    limiter(millis_to_nanos(per_ms), burst, "invalid write rate limiter config")
}

/// The time between two requests at this rate, in whole nanoseconds; zero for a
/// rate of zero, and for one above a request per nanosecond.
pub open spec fn period_of_rate(per_sec: u64) -> int {
    if per_sec == 0 {
        0
    } else {
        1_000_000_000int / per_sec as int
    }
}

/// The limiter of the sensitive and admin endpoints (plugin lifecycle, RBAC,
/// alerts, budget mutations).
///
/// `per_sec`: replenish rate in requests per second (default 2).
/// `burst`: maximum burst size (default 30).
///
/// An error if one of the two is zero, or the rate is above what nanoseconds can
/// tell apart.
pub fn sensitive_rate_limiter(per_sec: u64, burst: u32) -> (r: Result<
    RateLimiterLayer,
    OrbflowError,
>)
    ensures
        limiter_or_error(
            r,
            period_of_rate(per_sec),
            burst as int,
            "invalid sensitive rate limiter config"@,
        ),
{
    let period: u64 = if per_sec == 0 {
        0
    } else {
        1_000_000_000 / per_sec
    };
    assert(period <= 1_000_000_000) by (nonlinear_arith)
        requires
            per_sec == 0 ==> period == 0,
            per_sec > 0 ==> period == 1_000_000_000int / per_sec as int,
    ;
    assert(burst_fits(period as int, burst as int)) by {
        if burst > 0 {
            assert(period * (burst - 1) <= 1_000_000_000 * 0xffff_ffff) by (nonlinear_arith)
                requires
                    0 <= period <= 1_000_000_000,
                    0 < burst <= 0xffff_ffff,
            ;
        }
    }
    limiter(period, burst, "invalid sensitive rate limiter config")
}

/// A concurrent map of the dashmap crate.
#[verifier::external_type_specification]
#[verifier::external_body]
#[verifier::reject_recursive_types(K)]
#[verifier::reject_recursive_types(V)]
#[verifier::reject_recursive_types(S)]
pub struct ExDashMap<K, V, S>(dashmap::DashMap<K, V, S>);

/// Names what a map holds: the value under each key.
pub uninterp spec fn start_times(m: dashmap::DashMap<String, u64>) -> Map<Seq<char>, u64>;

/// The record of no start.
pub open spec fn no_times() -> Map<Seq<char>, u64> {
    Map::empty()
}

/// `DashMap::new`: a map that holds nothing.
#[verifier::external_body]
fn new_times() -> (r: dashmap::DashMap<String, u64>)
    ensures
        start_times(r) == no_times(),
{
    dashmap::DashMap::new()
}

/// `DashMap::clone`: a map that holds the same.
#[verifier::external_body]
fn copy_times(m: &dashmap::DashMap<String, u64>) -> (r: dashmap::DashMap<String, u64>)
    ensures
        start_times(r) == start_times(*m),
{
    m.clone()
}

/// `DashMap::len`: the number of keys.
#[verifier::external_body]
fn count_times(m: &dashmap::DashMap<String, u64>) -> (r: usize)
    ensures
        r == start_times(*m).len(),
{
    m.len()
}

/// `DashMap::get`: the value under the key, if there is one.
#[verifier::external_body]
fn time_of(m: &dashmap::DashMap<String, u64>, key: &str) -> (r: Option<u64>)
    ensures
        r is Some <==> start_times(*m).contains_key(key@),
        r is Some ==> r->0 == start_times(*m)[key@],
{
    m.get(key).map(|last| *last)
}

/// `DashMap::insert`: the key then has the value, and the other keys keep theirs.
#[verifier::external_body]
fn put_time(m: &mut dashmap::DashMap<String, u64>, key: String, value: u64)
    ensures
        start_times(*final(m)) == start_times(*old(m)).insert(key@, value),
{
    m.insert(key, value);
}

/// `DashMap::retain` with a test on the value: the keys whose value passes stay,
/// with their values; the others are gone.
#[verifier::external_body]
fn keep_recent(m: &mut dashmap::DashMap<String, u64>, now: u64, age: u64)
    ensures
        start_times(*final(m)) == entries_within(start_times(*old(m)), now, age),
{
    m.retain(|_, last| within(now, *last, age));
}

/// Less than `age` nanoseconds have passed at `now` since `last`. A time after
/// `now` counts as now.
pub open spec fn is_within(now: u64, last: u64, age: u64) -> bool {
    if last <= now {
        now - last < age
    } else {
        0 < age
    }
}

/// The entries of the map whose time lies less than `age` before `now`.
pub open spec fn entries_within(
    times: Map<Seq<char>, u64>,
    now: u64,
    age: u64,
) -> Map<Seq<char>, u64> {
    Map::new(
        |key: Seq<char>| times.contains_key(key) && is_within(now, times[key], age),
        |key: Seq<char>| times[key],
    )
}

/// Whether less than `age` nanoseconds have passed at `now` since `last`.
pub fn within(now: u64, last: u64, age: u64) -> (r: bool)
    ensures
        r == is_within(now, last, age),
{
    if last <= now {
        now - last < age
    } else {
        0 < age
    }
}

/// Minimum interval between consecutive starts of the same workflow, in nanoseconds.
pub const START_RATE_LIMIT_WINDOW: u64 = 2_000_000_000;

/// The age at which the record of a start may be dropped, in nanoseconds.
pub const START_RECORD_AGE: u64 = 4_000_000_000;

/// Maximum number of entries before triggering eviction of stale entries.
pub const EVICTION_THRESHOLD: usize = 10_000;

/// Per-workflow rate limiter of workflow starts: the time of the last start of
/// each workflow, in nanoseconds of a clock that never goes back.
pub struct StartRateLimiter {
    last_start: dashmap::DashMap<String, u64>,
}

/// The records that a check at `now` works on: stale ones are dropped once there
/// are too many.
pub open spec fn checked_times(times: Map<Seq<char>, u64>, now: u64) -> Map<Seq<char>, u64> {
    if times.len() > EVICTION_THRESHOLD {
        entries_within(times, now, START_RECORD_AGE)
    } else {
        times
    }
}

/// The workflow was started less than the window ago.
pub open spec fn started_recently(
    times: Map<Seq<char>, u64>,
    workflow_id: Seq<char>,
    now: u64,
) -> bool {
    times.contains_key(workflow_id) && is_within(now, times[workflow_id], START_RATE_LIMIT_WINDOW)
}

impl View for StartRateLimiter {
    type V = Map<Seq<char>, u64>;

    closed spec fn view(&self) -> Map<Seq<char>, u64> {
        start_times(self.last_start)
    }
}

impl StartRateLimiter {
    /// A limiter that has seen no start.
    pub fn new() -> (r: Self)
        ensures
            r@ == no_times(),
    {
        StartRateLimiter { last_start: new_times() }
    }

    /// Admits a start of the workflow and records it, unless the workflow was
    /// started less than the window ago. Evicts stale records when there are many.
    pub fn check(&mut self, workflow_id: &str, now: u64) -> (r: Result<(), ErrorReply>)
        ensures
            match r {
                Ok(()) => !started_recently(old(self)@, workflow_id@, now) && final(self)@
                    == checked_times(old(self)@, now).insert(workflow_id@, now),
                Err(reply) => {
                    &&& started_recently(old(self)@, workflow_id@, now)
                    &&& final(self)@ == checked_times(old(self)@, now)
                    &&& reply.status == 429
                    &&& reply.shape == ReplyShape::ErrorOnly
                    &&& reply.error@ == "rate limit: workflow was started recently, please wait"@
                },
            },
    {
        if count_times(&self.last_start) > EVICTION_THRESHOLD {
            keep_recent(&mut self.last_start, now, START_RECORD_AGE);
        }
        proof {
            law_eviction_changes_no_decision(old(self)@, workflow_id@, now);
        }
        if let Some(last) = time_of(&self.last_start, workflow_id) {
            if within(now, last, START_RATE_LIMIT_WINDOW) {
                return Err(
                    ErrorReply {
                        status: 429,
                        shape: ReplyShape::ErrorOnly,
                        error: "rate limit: workflow was started recently, please wait".to_owned(),
                    },
                );
            }
        }
        put_time(&mut self.last_start, workflow_id.to_owned(), now);
        Ok(())
    }
}

impl Clone for StartRateLimiter {
    fn clone(&self) -> (r: Self)
        ensures
            r@ == self@,
    {
        StartRateLimiter { last_start: copy_times(&self.last_start) }
    }
}

impl Default for StartRateLimiter {
    fn default() -> (r: Self)
        ensures
            r@ == no_times(),
    {
        StartRateLimiter::new()
    }
}

/// Admits or refuses a start of the workflow, as [`StartRateLimiter::check`] does.
pub fn check_start_rate_limit(limiter: &mut StartRateLimiter, workflow_id: &str, now: u64) -> (r:
    Result<(), ErrorReply>)
    ensures
        r is Err <==> started_recently(old(limiter)@, workflow_id@, now),
        r matches Err(reply) ==> reply.status == 429 && reply.shape == ReplyShape::ErrorOnly
            && reply.error@ == "rate limit: workflow was started recently, please wait"@,
        r is Err ==> final(limiter)@ == checked_times(old(limiter)@, now),
        r is Ok ==> final(limiter)@ == checked_times(old(limiter)@, now).insert(workflow_id@, now),
{
    limiter.check(workflow_id, now)
}

/// Dropping stale records never changes whether a start is admitted.
pub proof fn law_eviction_changes_no_decision(
    times: Map<Seq<char>, u64>,
    workflow_id: Seq<char>,
    now: u64,
)
    ensures
        started_recently(checked_times(times, now), workflow_id, now) == started_recently(
            times,
            workflow_id,
            now,
        ),
{
}

/// After a start was admitted, the next start of the same workflow is refused
/// while the window lasts, and admitted from its end on.
pub proof fn law_one_start_per_window(
    times: Map<Seq<char>, u64>,
    workflow_id: Seq<char>,
    first: u64,
    second: u64,
)
    requires
        first <= second,
    ensures
        started_recently(checked_times(times, first).insert(workflow_id, first), workflow_id, second)
            <==> second - first < START_RATE_LIMIT_WINDOW,
{
}

/// Admitting a start of one workflow leaves every decision on another as it is.
pub proof fn law_workflows_are_limited_apart(
    times: Map<Seq<char>, u64>,
    started: Seq<char>,
    other: Seq<char>,
    now: u64,
    later: u64,
)
    requires
        started != other,
        now <= later,
    ensures
        started_recently(checked_times(times, now).insert(started, now), other, later)
            == started_recently(times, other, later),
{
}

/// A limiter has just the settings that it was made with, and there is none with a
/// period or a burst of zero.
pub proof fn law_limiter_has_its_settings(
    r: Result<RateLimiterLayer, OrbflowError>,
    period_nanos: int,
    burst: int,
    error: Seq<char>,
)
    requires
        limiter_or_error(r, period_nanos, burst, error),
    ensures
        r is Ok <==> period_nanos != 0 && burst != 0,
        r matches Ok(l) ==> l.period_nanos == period_nanos && l.burst == burst,
        r is Err ==> r->Err_0 is Internal && r->Err_0->Internal_0@ == error,
{
}

/// At a rate of so many requests a second, the time between two of them is the
/// largest whole number of nanoseconds of which so many make no more than a second.
pub proof fn law_period_is_that_of_the_rate(per_sec: u64)
    requires
        per_sec > 0,
    ensures
        per_sec * period_of_rate(per_sec) <= 1_000_000_000,
        1_000_000_000 < per_sec * (period_of_rate(per_sec) + 1),
{
    let p = period_of_rate(per_sec);
    assert(per_sec * p <= 1_000_000_000 && 1_000_000_000 < per_sec * (p + 1)) by (nonlinear_arith)
        requires
            per_sec > 0,
            p == 1_000_000_000int / per_sec as int,
    ;
}

/// A workflow was started recently exactly where its last start is on record and
/// less than two seconds ago.
pub proof fn law_recent_means_two_seconds(
    times: Map<Seq<char>, u64>,
    workflow_id: Seq<char>,
    now: u64,
)
    ensures
        started_recently(times, workflow_id, now) <==> times.contains_key(workflow_id)
            && now - times[workflow_id] < 2_000_000_000,
{
}

/// A check drops no record that is younger than four seconds, none at all while
/// there are no more than ten thousand, and changes none; with more it drops the older.
pub proof fn law_young_records_are_kept(times: Map<Seq<char>, u64>, now: u64, key: Seq<char>)
    ensures
        times.len() <= 10_000 ==> checked_times(times, now) == times,
        times.contains_key(key) && now - times[key] < 4_000_000_000 ==> checked_times(
            times,
            now,
        ).contains_key(key),
        checked_times(times, now).contains_key(key) ==> times.contains_key(key) && checked_times(
            times,
            now,
        )[key] == times[key],
        times.len() > 10_000 && times.contains_key(key) && now - times[key] >= 4_000_000_000
            ==> !checked_times(times, now).contains_key(key),
{
}

/// Nothing is on record at first.
pub proof fn law_no_start_is_on_record_at_first(key: Seq<char>)
    ensures
        !no_times().contains_key(key),
{
}

} // verus!
