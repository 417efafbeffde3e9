//! The activity timeline: when each account was created, in order, how long
//! the person has been online, and which platforms were joined in which year.

use vstd::prelude::*;
use crate::text::{chars_of, decimal, digit_char, is_digit, signed_decimal, str_eq, lemma_lex_total, lemma_lex_transitive, lex_less, lex_less_exec, views};
use crate::types::{ClaimedProfile, opt_view};

verus! {

// ---------------------------------------------------------------------------
// Instants and their calendar, done by chrono
// ---------------------------------------------------------------------------

/// An instant in UTC: seconds since the Unix epoch and nanoseconds past that
/// second (up to 1 999 999 999 during a leap second).
#[derive(Clone, Copy, PartialEq, Eq, Debug)]
pub struct Timestamp {
    pub secs: i64,
    pub nanos: u32,
}

/// What `chrono` gives for an RFC 3339 date and time: the instant, as
/// seconds and nanoseconds in UTC, or `None` when the text does not parse.
pub uninterp spec fn spec_rfc3339(s: Seq<char>) -> Option<(i64, u32)>;

/// What `chrono` gives for a date in the given format: the instant of its
/// midnight in UTC, or `None` when the text does not parse.
pub uninterp spec fn spec_date_midnight(s: Seq<char>, fmt: Seq<char>) -> Option<(i64, u32)>;

/// The days from the first of January of year 1 to the first of January of
/// year `y` in the proleptic Gregorian calendar (negative before year 1).
pub open spec fn days_to_year(y: int) -> int {
    let z = y - 1;
    365 * z + z / 4 - z / 100 + z / 400
}

/// Midnight (UTC) on the first of January of a year, as seconds since the
/// Unix epoch: `None` outside the years `chrono` can hold (-262143 to
/// 262142).
pub open spec fn spec_year_start(year: i32) -> Option<(i64, u32)> {
    if -262143 <= year <= 262142 {
        Some((((days_to_year(year as int) - days_to_year(1970)) * 86400) as i64, 0u32))
    } else {
        None
    }
}

/// What `chrono` writes for the year (`%Y`) of an instant, or `None` when
/// the instant is outside its range.
pub uninterp spec fn spec_year_label(secs: i64, nanos: u32) -> Option<Seq<char>>;

/// What `chrono` gives for the number of whole days from the instant `from`
/// to the instant `to`, or `None` when either is outside its range.
pub uninterp spec fn spec_days_between(to: (i64, u32), from: (i64, u32)) -> Option<i64>;

/// The instant written in RFC 3339 form.
///
/// Trusted: wraps `chrono::DateTime::parse_from_rfc3339`, then reads the
/// UTC instant with `timestamp` and `timestamp_subsec_nanos`. The result
/// depends on the text alone; the contract names it.
#[verifier::external_body]
fn rfc3339_instant(s: &str) -> (r: Option<Timestamp>)
    ensures
        match r {
            Some(t) => spec_rfc3339(s@) == Some((t.secs, t.nanos)),
            None => spec_rfc3339(s@) is None,
        },
{
    let dt = chrono::DateTime::parse_from_rfc3339(s).ok()?;
    Some(Timestamp { secs: dt.timestamp(), nanos: dt.timestamp_subsec_nanos() })
}

/// Midnight (UTC) of the date written in the given format.
///
/// Trusted: wraps `chrono::NaiveDate::parse_from_str`, then takes midnight
/// with `and_hms_opt(0, 0, 0)` and its UTC instant. The result depends on the
/// text and the format alone; the contract names it.
#[verifier::external_body]
fn date_midnight(s: &str, fmt: &str) -> (r: Option<Timestamp>)
    ensures
        match r {
            Some(t) => spec_date_midnight(s@, fmt@) == Some((t.secs, t.nanos)),
            None => spec_date_midnight(s@, fmt@) is None,
        },
{
    let d = chrono::NaiveDate::parse_from_str(s, fmt).ok()?;
    let dt = d.and_hms_opt(0, 0, 0)?.and_utc();
    Some(Timestamp { secs: dt.timestamp(), nanos: dt.timestamp_subsec_nanos() })
}

/// Midnight (UTC) on the first of January of `year`.
///
/// Trusted: wraps `chrono::NaiveDate::from_ymd_opt(year, 1, 1)`, then takes
/// midnight and its UTC instant. `from_ymd_opt` refuses the years outside
/// `MIN_YEAR` (-262143) to `MAX_YEAR` (262142); the instant counts the days of
/// the proleptic Gregorian calendar (a leap year every fourth year, except
/// centuries not divisible by 400) from the epoch.
#[verifier::external_body]
fn year_start(year: i32) -> (r: Option<Timestamp>)
    ensures
        match r {
            Some(t) => spec_year_start(year) == Some((t.secs, t.nanos)),
            None => spec_year_start(year) is None,
        },
{
    let d = chrono::NaiveDate::from_ymd_opt(year, 1, 1)?;
    let dt = d.and_hms_opt(0, 0, 0)?.and_utc();
    Some(Timestamp { secs: dt.timestamp(), nanos: dt.timestamp_subsec_nanos() })
}

/// The year of an instant as `chrono` writes it with `%Y`.
///
/// Trusted: wraps `chrono::DateTime::<Utc>::from_timestamp` and `format("%Y")`.
/// The result depends on the instant alone; the contract names it.
#[verifier::external_body]
pub(crate) fn year_label(t: Timestamp) -> (r: Option<String>)
    ensures
        opt_view(r) == spec_year_label(t.secs, t.nanos),
{
    let dt = chrono::DateTime::<chrono::Utc>::from_timestamp(t.secs, t.nanos)?;
    Some(dt.format("%Y").to_string())
}

/// What `chrono` writes as the date (`%Y-%m-%d`) of the instant `secs`
/// seconds after the Unix epoch, or `None` when the instant is outside its
/// range.
pub uninterp spec fn spec_day_label(secs: i64) -> Option<Seq<char>>;

/// The date, as `%Y-%m-%d`, of the instant `secs` seconds after the epoch.
///
/// Trusted: wraps `chrono::DateTime::<Utc>::from_timestamp(secs, 0)` and
/// `format("%Y-%m-%d")`. The result depends on `secs` alone; the contract
/// names it.
#[verifier::external_body]
pub(crate) fn day_label(secs: i64) -> (r: Option<String>)
    ensures
        opt_view(r) == spec_day_label(secs),
{
    let dt = chrono::DateTime::<chrono::Utc>::from_timestamp(secs, 0)?;
    Some(dt.format("%Y-%m-%d").to_string())
}

/// The number of whole days from `from` to `to`.
///
/// Trusted: wraps `chrono::DateTime::<Utc>::from_timestamp` for both instants
/// and `TimeDelta::num_days` of their difference. The result depends on the
/// two instants alone; the contract names it.
#[verifier::external_body]
pub(crate) fn days_between(to: Timestamp, from: Timestamp) -> (r: Option<i64>)
    ensures
        r == spec_days_between((to.secs, to.nanos), (from.secs, from.nanos)),
{
    let a = chrono::DateTime::<chrono::Utc>::from_timestamp(to.secs, to.nanos)?;
    let b = chrono::DateTime::<chrono::Utc>::from_timestamp(from.secs, from.nanos)?;
    Some((a - b).num_days())
}

/// The current instant, or `None` when the clock reads before the Unix
/// epoch or beyond the range of `chrono`.
///
/// Trusted: does what `chrono::Utc::now` does, reading the system clock as a
/// duration since the epoch and turning it into a `DateTime<Utc>` with
/// `DateTime::from_timestamp`, but gives `None` where `Utc::now` would panic.
/// Which instant comes back depends on the clock; the contract states only
/// that it lies after the epoch, with less than a second of nanoseconds.
#[verifier::external_body]
pub(crate) fn now_instant() -> (r: Option<Timestamp>)
    ensures
        match r {
            Some(t) => t.secs >= 0 && t.nanos < 1_000_000_000,
            None => true,
        },
{
    let d = std::time::UNIX_EPOCH.elapsed().ok()?;
    let dt = chrono::DateTime::<chrono::Utc>::from_timestamp(i64::try_from(d.as_secs()).ok()?, d.subsec_nanos())?;
    Some(Timestamp { secs: dt.timestamp(), nanos: dt.timestamp_subsec_nanos() })
}

// ---------------------------------------------------------------------------
// Dates as profiles write them
// ---------------------------------------------------------------------------

/// The value of a string of decimal digits.
pub open spec fn digits_value(d: Seq<char>) -> int
    decreases d.len(),
{
    if d.len() == 0 {
        0
    } else {
        digits_value(d.drop_last()) * 10 + (d.last() as int - '0' as int)
    }
}

/// Every character of `d` is a decimal digit.
pub open spec fn all_digits(d: Seq<char>) -> bool {
    forall|i: int| 0 <= i < d.len() ==> is_digit(#[trigger] d[i])
}

/// `s` without a leading sign.
pub open spec fn unsigned_part(s: Seq<char>) -> Seq<char> {
    if s.len() > 0 && (s[0] == '-' || s[0] == '+') {
        s.drop_first()
    } else {
        s
    }
}

/// The 32-bit integer a string writes (what `str::parse::<i32>` accepts): an
/// optional `+` or `-`, then at least one decimal digit, the value in range.
pub open spec fn spec_parse_i32(s: Seq<char>) -> Option<i32> {
    let neg = s.len() > 0 && s[0] == '-';
    let body = unsigned_part(s);
    if body.len() == 0 || !all_digits(body) {
        None
    } else {
        let v = if neg {
            -digits_value(body)
        } else {
            digits_value(body)
        };
        if i32::MIN <= v <= i32::MAX {
            Some(v as i32)
        } else {
            None
        }
    }
}

proof fn lemma_digits_value_take(d: Seq<char>, k: int)
    requires
        0 <= k < d.len(),
    ensures
        digits_value(d.take(k + 1)) == digits_value(d.take(k)) * 10 + (d[k] as int - '0' as int),
{
    assert(d.take(k + 1).drop_last() == d.take(k));
}

proof fn lemma_digits_value_grows(d: Seq<char>, k: int)
    requires
        0 <= k <= d.len(),
        forall|i: int| 0 <= i < d.len() ==> is_digit(d[i]),
    ensures
        digits_value(d.take(k)) <= digits_value(d),
        digits_value(d.take(k)) >= 0,
    decreases d.len() - k,
{
    if k < d.len() {
        lemma_digits_value_take(d, k);
        lemma_digits_value_grows(d, k + 1);
    } else {
        assert(d.take(k) == d);
    }
    lemma_digits_value_nonneg(d.take(k));
}

proof fn lemma_digits_value_nonneg(d: Seq<char>)
    requires
        forall|i: int| 0 <= i < d.len() ==> is_digit(d[i]),
    ensures
        digits_value(d) >= 0,
    decreases d.len(),
{
    if d.len() > 0 {
        lemma_digits_value_nonneg(d.drop_last());
    }
}

/// The 32-bit integer a string writes, if any.
pub fn parse_i32(s: &str) -> (r: Option<i32>)
    ensures
        r == spec_parse_i32(s@),
{
    let cs = chars_of(s);
    let neg = cs.len() > 0 && cs[0] == '-';
    let start: usize = if cs.len() > 0 && (cs[0] == '-' || cs[0] == '+') { 1 } else { 0 };
    let ghost body = unsigned_part(s@);
    assert(body == cs@.skip(start as int));
    if start >= cs.len() {
        return None;
    }
    let limit: i64 = 2147483648;
    let mut acc: i64 = 0;
    let mut big = false;
    let mut i = start;
    while i < cs.len()
        invariant
            cs@ == s@,
            body == unsigned_part(s@),
            start <= i <= cs@.len(),
            body == cs@.skip(start as int),
            forall|k: int| 0 <= k < i - start ==> is_digit(body[k]),
            !big ==> acc == digits_value(body.take(i - start)),
            big ==> digits_value(body.take(i - start)) > limit,
            0 <= acc <= limit,
            limit == 2147483648,
        decreases cs@.len() - i,
    {
        let c = cs[i];
        if !('0' <= c && c <= '9') {
            assert(!is_digit(body[i - start]));
            assert(!all_digits(body));
            return None;
        }
        proof {
            lemma_digits_value_take(body, i - start);
            assert(forall|k: int| 0 <= k < i - start ==> is_digit(#[trigger] body.take(i - start)[k]));
            lemma_digits_value_nonneg(body.take(i - start));
        }
        let dv = (c as u32 - '0' as u32) as i64;
        if !big {
            let next = acc * 10 + dv;
            if next > limit {
                big = true;
                acc = 0;
            } else {
                acc = next;
            }
        }
        i += 1;
    }
    assert(body.take(body.len() as int) == body);
    if big {
        return None;
    }
    if neg {
        Some((0 - acc) as i32)
    } else if acc <= 2147483647 {
        Some(acc as i32)
    } else {
        None
    }
}

/// The instant a profile's join date stands for: an RFC 3339 date and time,
/// else midnight of a `%Y-%m-%d` date, else midnight of the date of a
/// `%Y-%m-%dT%H:%M:%S` date and time, else the first of January of a bare
/// year; `None` when it is none of these.
pub open spec fn spec_parse_date(s: Seq<char>) -> Option<(i64, u32)> {
    match spec_rfc3339(s) {
        Some(t) => Some(t),
        None => match spec_date_midnight(s, "%Y-%m-%d"@) {
            Some(t) => Some(t),
            None => match spec_date_midnight(s, "%Y-%m-%dT%H:%M:%S"@) {
                Some(t) => Some(t),
                None => match spec_parse_i32(s) {
                    Some(y) => spec_year_start(y),
                    None => None,
                },
            },
        },
    }
}

/// The pair of an optional instant.
pub open spec fn ts_view(t: Option<Timestamp>) -> Option<(i64, u32)> {
    match t {
        Some(x) => Some((x.secs, x.nanos)),
        None => None,
    }
}

/// The instant a profile's join date stands for (see [`spec_parse_date`]).
pub fn parse_date(s: &str) -> (r: Option<Timestamp>)
    ensures
        ts_view(r) == spec_parse_date(s@),
{
    if let Some(t) = rfc3339_instant(s) {
        return Some(t);
    }
    if let Some(t) = date_midnight(s, "%Y-%m-%d") {
        return Some(t);
    }
    if let Some(t) = date_midnight(s, "%Y-%m-%dT%H:%M:%S") {
        return Some(t);
    }
    match parse_i32(s) {
        Some(year) => year_start(year),
        None => None,
    }
}

// ---------------------------------------------------------------------------
// Timeline
// ---------------------------------------------------------------------------

/// What happened on an account.
#[derive(Clone, Copy, PartialEq, Eq, Debug)]
pub enum TimelineEvent {
    AccountCreated,
    LastSeen,
}

/// One dated event on one site.
#[derive(Clone, Debug)]
pub struct TimelineEntry {
    pub site_name: String,
    pub event: TimelineEvent,
    pub date: String,
    pub date_parsed: Option<Timestamp>,
}

/// The view of an entry: site, event, date as written and the instant.
pub open spec fn entry_view(e: TimelineEntry) -> (Seq<char>, TimelineEvent, Seq<char>, Option<(i64, u32)>) {
    (e.site_name@, e.event, e.date@, ts_view(e.date_parsed))
}

/// The views of a list of entries.
pub open spec fn entry_views(v: Seq<TimelineEntry>) -> Seq<(Seq<char>, TimelineEvent, Seq<char>, Option<(i64, u32)>)> {
    v.map_values(|e: TimelineEntry| entry_view(e))
}

/// The dated accounts, in profile order: an account-created entry for each
/// profile that shows a join date.
pub open spec fn raw_entries(ps: Seq<ClaimedProfile>) -> Seq<(Seq<char>, TimelineEvent, Seq<char>, Option<(i64, u32)>)>
    decreases ps.len(),
{
    if ps.len() == 0 {
        Seq::empty()
    } else {
        raw_entries(ps.drop_last()) + (match ps.last().details.joined_date {
            Some(d) => seq![(ps.last().site_name@, TimelineEvent::AccountCreated, d@, spec_parse_date(d@))],
            None => Seq::empty(),
        })
    }
}

/// `a` comes strictly before `b`: no instant before any instant, instants in
/// time order.
pub open spec fn before(a: Option<(i64, u32)>, b: Option<(i64, u32)>) -> bool {
    match (a, b) {
        (None, Some(_)) => true,
        (Some(x), Some(y)) => x.0 < y.0 || (x.0 == y.0 && x.1 < y.1),
        _ => false,
    }
}

/// `out` is `inp` sorted by instant, entries with equal instants keeping their
/// order (a stable sort).
pub open spec fn stably_sorted<E>(out: Seq<(E, TimelineEvent, E, Option<(i64, u32)>)>, inp: Seq<(E, TimelineEvent, E, Option<(i64, u32)>)>) -> bool {
    exists|perm: Seq<int>| is_stable_order(out, inp, perm)
}

/// `perm` takes each position of `out` to the position of `inp` it came from,
/// and orders `out` by instant and then by that position.
pub open spec fn is_stable_order<E>(out: Seq<(E, TimelineEvent, E, Option<(i64, u32)>)>, inp: Seq<(E, TimelineEvent, E, Option<(i64, u32)>)>, perm: Seq<int>) -> bool {
    &&& perm.len() == out.len() == inp.len()
    &&& forall|k: int| 0 <= k < perm.len() ==> 0 <= #[trigger] perm[k] < inp.len()
    &&& forall|k: int, l: int| 0 <= k < l < perm.len() ==> perm[k] != perm[l]
    &&& forall|k: int| 0 <= k < out.len() ==> #[trigger] out[k] == inp[perm[k]]
    &&& forall|k: int, l: int|
        0 <= k < l < out.len() ==> before(out[k].3, out[l].3) || (out[k].3 == out[l].3 && perm[k]
            < perm[l])
}

/// The activity timeline of a set of accounts.
#[derive(Clone, Debug)]
pub struct ActivityTimeline {
    pub entries: Vec<TimelineEntry>,
    pub earliest_account: Option<TimelineEntry>,
    pub digital_footprint_years: Option<u32>,
    /// For each year (as written by `%Y`), the sites joined that year, the
    /// years in increasing order of their text.
    pub platforms_by_year: Vec<(String, Vec<String>)>,
}

fn copy_entry(e: &TimelineEntry) -> (r: TimelineEntry)
    ensures
        entry_view(r) == entry_view(*e),
{
    TimelineEntry {
        site_name: e.site_name.clone(),
        event: e.event,
        date: e.date.clone(),
        date_parsed: e.date_parsed,
    }
}

fn before_exec(a: Option<Timestamp>, b: Option<Timestamp>) -> (r: bool)
    ensures
        r == before(ts_view(a), ts_view(b)),
{
    match (a, b) {
        (None, Some(_)) => true,
        (Some(x), Some(y)) => x.secs < y.secs || (x.secs == y.secs && x.nanos < y.nanos),
        _ => false,
    }
}

/// The dated accounts, in profile order.
fn collect_entries(profiles: &[ClaimedProfile]) -> (r: Vec<TimelineEntry>)
    ensures
        entry_views(r@) == raw_entries(profiles@),
{
    let mut r: Vec<TimelineEntry> = Vec::new();
    let mut i: usize = 0;
    while i < profiles.len()
        invariant
            i <= profiles@.len(),
            entry_views(r@) == raw_entries(profiles@.take(i as int)),
        decreases profiles@.len() - i,
    {
        assert(profiles@.take(i + 1).drop_last() == profiles@.take(i as int));
        match &profiles[i].details.joined_date {
            Some(d) => {
                let e = TimelineEntry {
                    site_name: profiles[i].site_name.clone(),
                    event: TimelineEvent::AccountCreated,
                    date: d.clone(),
                    date_parsed: parse_date(d.as_str()),
                };
                assert(entry_views(r@.push(e)) =~= entry_views(r@).push(entry_view(e)));
                r.push(e);
            },
            None => {
                assert(entry_views(r@) =~= entry_views(r@) + Seq::<(Seq<char>, TimelineEvent, Seq<char>, Option<(i64, u32)>)>::empty());
            },
        }
        i += 1;
    }
    assert(profiles@.take(profiles@.len() as int) == profiles@);
    r
}

/// The entries sorted by instant, stably (undated entries first).
fn sort_entries(entries: Vec<TimelineEntry>) -> (r: Vec<TimelineEntry>)
    ensures
        stably_sorted(entry_views(r@), entry_views(entries@)),
{
    let ghost inp = entry_views(entries@);
    let mut out: Vec<TimelineEntry> = Vec::new();
    let ghost mut perm: Seq<int> = Seq::empty();
    let mut src = entries;
    let mut rest: Vec<TimelineEntry> = Vec::new();
    // Take the entries out in order: reverse them so that `pop` yields them first to last.
    while src.len() > 0
        invariant
            inp.len() == rest@.len() + src@.len(),
            forall|k: int| 0 <= k < src@.len() ==> entry_view(#[trigger] src@[k]) == inp[k],
            forall|k: int| 0 <= k < rest@.len() ==> entry_view(#[trigger] rest@[k]) == inp[inp.len() - 1 - k],
        decreases src@.len(),
    {
        let e = src.pop().unwrap();
        rest.push(e);
    }
    let mut i: usize = 0;
    let n = rest.len();
    while rest.len() > 0
        invariant
            n == inp.len(),
            i + rest@.len() == n,
            forall|k: int| 0 <= k < rest@.len() ==> entry_view(#[trigger] rest@[k]) == inp[n - 1 - k],
            out@.len() == i,
            is_stable_order(entry_views(out@), inp.take(i as int), perm),
        decreases rest@.len(),
    {
        let e = rest.pop().unwrap();
        assert(entry_view(e) == inp[i as int]);
        let key = e.date_parsed;
        let mut p: usize = 0;
        while p < out.len() && !before_exec(key, out[p].date_parsed)
            invariant
                p <= out@.len(),
                forall|k: int| 0 <= k < p ==> !before(ts_view(key), ts_view(#[trigger] out@[k].date_parsed)),
            decreases out@.len() - p,
        {
            p += 1;
        }
        let ghost old_out = entry_views(out@);
        let ghost old_perm = perm;
        out.insert(p, e);
        proof {
            perm = old_perm.insert(p as int, i as int);
            let nv = entry_views(out@);
            assert(nv =~= old_out.insert(p as int, entry_view(e)));
            let it = inp.take(i + 1);
            assert forall|k: int| 0 <= k < nv.len() implies #[trigger] nv[k] == it[perm[k]] by {
                if k < p {
                    assert(nv[k] == old_out[k]);
                } else if k > p {
                    assert(nv[k] == old_out[k - 1]);
                }
            }
            assert forall|k: int, l: int| 0 <= k < l < nv.len() implies before(nv[k].3, nv[l].3) || (
            nv[k].3 == nv[l].3 && perm[k] < perm[l]) by {
                lemma_before_facts();
                if k < p && l < p {
                    assert(nv[k] == old_out[k] && nv[l] == old_out[l]);
                } else if k < p && l == p {
                    assert(nv[k] == old_out[k]);
                    assert(!before(ts_view(key), old_out[k].3));
                    assert(old_perm[k] < i);
                } else if k < p && l > p {
                    assert(nv[k] == old_out[k] && nv[l] == old_out[l - 1]);
                } else if k == p {
                    assert(nv[l] == old_out[l - 1]);
                    if l - 1 == p {
                        assert(before(ts_view(key), old_out[l - 1].3));
                    } else {
                        assert(before(ts_view(key), old_out[p as int].3));
                        assert(before(old_out[p as int].3, old_out[l - 1].3) || old_out[p as int].3 == old_out[l - 1].3);
                    }
                } else {
                    assert(nv[k] == old_out[k - 1] && nv[l] == old_out[l - 1]);
                }
            }
            assert forall|k: int, l: int| 0 <= k < l < perm.len() implies perm[k] != perm[l] by {
                if k < p && l < p {
                } else if k < p && l == p {
                    assert(old_perm[k] < i);
                } else if k < p && l > p {
                } else if k == p {
                    assert(old_perm[l - 1] < i);
                } else {
                }
            }
        }
        i += 1;
    }
    assert(inp.take(n as int) == inp);
    out
}

proof fn lemma_before_facts()
    ensures
        forall|a: Option<(i64, u32)>, b: Option<(i64, u32)>, c: Option<(i64, u32)>|
            #![trigger before(a, b), before(b, c)]
            before(a, b) && before(b, c) ==> before(a, c),
        forall|a: Option<(i64, u32)>, b: Option<(i64, u32)>|
            #![trigger before(a, b), before(b, a)]
            !before(a, b) && !before(b, a) ==> a == b,
        forall|a: Option<(i64, u32)>, b: Option<(i64, u32)>|
            #![trigger before(a, b)]
            before(a, b) ==> a != b,
{
}


// ---------------------------------------------------------------------------
// Platforms by year
// ---------------------------------------------------------------------------

/// The year (as `%Y` writes it) and the site of each entry whose instant is
/// known, in the order of the entries.
pub open spec fn year_sites(es: Seq<(Seq<char>, TimelineEvent, Seq<char>, Option<(i64, u32)>)>) -> Seq<(Seq<char>, Seq<char>)>
    decreases es.len(),
{
    if es.len() == 0 {
        Seq::empty()
    } else {
        year_sites(es.drop_last()) + match es.last().3 {
            Some(t) => match spec_year_label(t.0, t.1) {
                Some(y) => seq![(y, es.last().0)],
                None => Seq::empty(),
            },
            None => Seq::empty(),
        }
    }
}

/// The sites paired with year `y`, in order.
pub open spec fn sites_in(pairs: Seq<(Seq<char>, Seq<char>)>, y: Seq<char>) -> Seq<Seq<char>>
    decreases pairs.len(),
{
    if pairs.len() == 0 {
        Seq::empty()
    } else {
        sites_in(pairs.drop_last(), y) + if pairs.last().0 == y {
            seq![pairs.last().1]
        } else {
            Seq::empty()
        }
    }
}

/// The years of the pairs.
pub open spec fn years_of(pairs: Seq<(Seq<char>, Seq<char>)>) -> Seq<Seq<char>> {
    pairs.map_values(|p: (Seq<char>, Seq<char>)| p.0)
}

/// Each text comes strictly before the next (so none occurs twice).
pub open spec fn strictly_ascending(ks: Seq<Seq<char>>) -> bool {
    forall|i: int, j: int| 0 <= i < j < ks.len() ==> lex_less(#[trigger] ks[i], #[trigger] ks[j])
}

/// The keys of a year map.
pub open spec fn group_keys(groups: Seq<(Seq<char>, Seq<Seq<char>>)>) -> Seq<Seq<char>> {
    groups.map_values(|g: (Seq<char>, Seq<Seq<char>>)| g.0)
}

/// `groups` is the map from year to sites of `pairs`, in the order of a
/// sorted map: the years strictly ascending, exactly the years of the pairs,
/// each with the sites of that year in their order.
pub open spec fn is_year_map(groups: Seq<(Seq<char>, Seq<Seq<char>>)>, pairs: Seq<(Seq<char>, Seq<char>)>) -> bool {
    &&& strictly_ascending(group_keys(groups))
    &&& forall|i: int| 0 <= i < groups.len() ==> years_of(pairs).contains(#[trigger] groups[i].0)
    &&& forall|k: int| 0 <= k < pairs.len() ==> group_keys(groups).contains(#[trigger] pairs[k].0)
    &&& forall|i: int| 0 <= i < groups.len() ==> #[trigger] groups[i].1 == sites_in(pairs, groups[i].0)
}

/// The views of (text, text) pairs.
pub open spec fn pair_views(v: Seq<(String, String)>) -> Seq<(Seq<char>, Seq<char>)> {
    v.map_values(|p: (String, String)| (p.0@, p.1@))
}

/// The view of a year map.
pub open spec fn year_map_view(v: Seq<(String, Vec<String>)>) -> Seq<(Seq<char>, Seq<Seq<char>>)> {
    v.map_values(|g: (String, Vec<String>)| (g.0@, views(g.1@)))
}


/// The (year, site) pairs of the entries.
fn year_pairs(entries: &Vec<TimelineEntry>) -> (r: Vec<(String, String)>)
    ensures
        pair_views(r@) == year_sites(entry_views(entries@)),
{
    let mut r: Vec<(String, String)> = Vec::new();
    let mut i: usize = 0;
    while i < entries.len()
        invariant
            i <= entries@.len(),
            pair_views(r@) == year_sites(entry_views(entries@.take(i as int))),
        decreases entries@.len() - i,
    {
        let ghost before = entry_views(entries@.take(i as int));
        assert(entry_views(entries@.take(i + 1)).drop_last() =~= before);
        assert(entry_views(entries@.take(i + 1)).last() == entry_view(entries@[i as int]));
        match entries[i].date_parsed {
            Some(t) => match year_label(t) {
                Some(y) => {
                    let pr = (y, entries[i].site_name.clone());
                    assert(pair_views(r@.push(pr)) =~= pair_views(r@).push((pr.0@, pr.1@)));
                    r.push(pr);
                },
                None => {
                    assert(pair_views(r@) =~= pair_views(r@) + Seq::<(Seq<char>, Seq<char>)>::empty());
                },
            },
            None => {
                assert(pair_views(r@) =~= pair_views(r@) + Seq::<(Seq<char>, Seq<char>)>::empty());
            },
        }
        i += 1;
    }
    assert(entries@.take(entries@.len() as int) == entries@);
    r
}

/// The distinct years of the pairs, in ascending order.
fn sorted_years(pairs: &Vec<(String, String)>) -> (ks: Vec<String>)
    ensures
        strictly_ascending(views(ks@)),
        forall|i: int| 0 <= i < ks@.len() ==> years_of(pair_views(pairs@)).contains(#[trigger] views(ks@)[i]),
        forall|k: int| 0 <= k < pairs@.len() ==> views(ks@).contains(#[trigger] pair_views(pairs@)[k].0),
{
    let ghost pv = pair_views(pairs@);
    let mut ks: Vec<String> = Vec::new();
    let mut i: usize = 0;
    while i < pairs.len()
        invariant
            pv == pair_views(pairs@),
            i <= pairs@.len(),
            strictly_ascending(views(ks@)),
            forall|j: int| 0 <= j < ks@.len() ==> years_of(pv).contains(#[trigger] views(ks@)[j]),
            forall|k: int| 0 <= k < i ==> views(ks@).contains(#[trigger] pv[k].0),
        decreases pairs@.len() - i,
    {
        let y = &pairs[i].0;
        assert(pv[i as int].0 == y@);
        let mut p: usize = 0;
        while p < ks.len() && lex_less_exec(ks[p].as_str(), y.as_str())
            invariant
                p <= ks@.len(),
                forall|q: int| 0 <= q < p ==> lex_less(#[trigger] views(ks@)[q], y@),
            decreases ks@.len() - p,
        {
            p += 1;
        }
        if p < ks.len() && str_eq(ks[p].as_str(), y.as_str()) {
            assert(views(ks@)[p as int] == y@);
        } else {
            let ghost old_ks = views(ks@);
            proof {
                if p < old_ks.len() {
                    lemma_lex_total(old_ks[p as int], y@);
                }
                assert(years_of(pv)[i as int] == y@);
            }
            ks.insert(p, y.clone());
            proof {
                let nk = views(ks@);
                assert(nk =~= old_ks.insert(p as int, y@));
                assert forall|a: int, b: int| 0 <= a < b < nk.len() implies lex_less(#[trigger] nk[a], #[trigger] nk[b]) by {
                    if a < p && b == p {
                        assert(nk[a] == old_ks[a]);
                    } else if a < p && b > p {
                        assert(nk[a] == old_ks[a] && nk[b] == old_ks[b - 1]);
                    } else if a == p {
                        assert(nk[b] == old_ks[b - 1]);
                        if b - 1 > p {
                            assert(lex_less(old_ks[p as int], old_ks[b - 1]));
                            lemma_lex_transitive(y@, old_ks[p as int], old_ks[b - 1]);
                        }
                    } else if a > p {
                        assert(nk[a] == old_ks[a - 1] && nk[b] == old_ks[b - 1]);
                    } else {
                        assert(nk[a] == old_ks[a] && nk[b] == old_ks[b]);
                    }
                }
                assert forall|j: int| 0 <= j < nk.len() implies years_of(pv).contains(#[trigger] nk[j]) by {
                    if j < p {
                        assert(nk[j] == old_ks[j]);
                    } else if j > p {
                        assert(nk[j] == old_ks[j - 1]);
                    }
                }
                assert forall|k: int| 0 <= k <= i implies nk.contains(#[trigger] pv[k].0) by {
                    if k < i {
                        let w = choose|w: int| 0 <= w < old_ks.len() && old_ks[w] == pv[k].0;
                        if w < p {
                            assert(nk[w] == old_ks[w]);
                        } else {
                            assert(nk[w + 1] == old_ks[w]);
                        }
                    } else {
                        assert(nk[p as int] == y@);
                    }
                }
            }
        }
        i += 1;
    }
    ks
}

/// The sites of the pairs in year `y`, in order.
fn sites_of(pairs: &Vec<(String, String)>, y: &String) -> (r: Vec<String>)
    ensures
        views(r@) == sites_in(pair_views(pairs@), y@),
{
    let mut r: Vec<String> = Vec::new();
    let mut i: usize = 0;
    while i < pairs.len()
        invariant
            i <= pairs@.len(),
            views(r@) == sites_in(pair_views(pairs@.take(i as int)), y@),
        decreases pairs@.len() - i,
    {
        assert(pair_views(pairs@.take(i + 1)).drop_last() =~= pair_views(pairs@.take(i as int)));
        if str_eq(pairs[i].0.as_str(), y.as_str()) {
            let s = pairs[i].1.clone();
            assert(views(r@.push(s)) =~= views(r@).push(s@));
            r.push(s);
        } else {
            assert(views(r@) =~= views(r@) + Seq::<Seq<char>>::empty());
        }
        i += 1;
    }
    assert(pairs@.take(pairs@.len() as int) == pairs@);
    r
}

/// The sites of each year, the years ascending.
fn group_by_year(entries: &Vec<TimelineEntry>) -> (r: Vec<(String, Vec<String>)>)
    ensures
        is_year_map(year_map_view(r@), year_sites(entry_views(entries@))),
{
    let pairs = year_pairs(entries);
    let ks = sorted_years(&pairs);
    let ghost pv = pair_views(pairs@);
    let mut r: Vec<(String, Vec<String>)> = Vec::new();
    let mut i: usize = 0;
    while i < ks.len()
        invariant
            pv == pair_views(pairs@),
            i <= ks@.len(),
            year_map_view(r@).len() == i,
            forall|j: int| 0 <= j < i ==> #[trigger] year_map_view(r@)[j] == (views(ks@)[j], sites_in(pv, views(ks@)[j])),
        decreases ks@.len() - i,
    {
        let g = (ks[i].clone(), sites_of(&pairs, &ks[i]));
        assert(year_map_view(r@.push(g)) =~= year_map_view(r@).push((g.0@, views(g.1@))));
        r.push(g);
        i += 1;
    }
    proof {
        let gv = year_map_view(r@);
        assert(group_keys(gv) =~= views(ks@));
        assert forall|j: int| 0 <= j < gv.len() implies #[trigger] gv[j].1 == sites_in(pv, gv[j].0) by {
            assert(gv[j] == (views(ks@)[j], sites_in(pv, views(ks@)[j])));
        }
        assert forall|j: int| 0 <= j < gv.len() implies years_of(pv).contains(#[trigger] gv[j].0) by {
            assert(gv[j].0 == views(ks@)[j]);
        }
    }
    r
}


// ---------------------------------------------------------------------------
// The timeline
// ---------------------------------------------------------------------------

/// Whole years in a number of days: the quotient by 365, rounded toward zero
/// (as integer division does).
pub open spec fn years_in_days(d: int) -> int {
    if d >= 0 {
        d / 365
    } else {
        -((-d) / 365)
    }
}

/// How many whole years lie between the first instant and `now`, as a `u32`
/// (a negative count wraps, as a cast does); `None` without a first instant.
pub open spec fn spec_footprint(first: Option<(i64, u32)>, now: (i64, u32)) -> Option<u32> {
    match first {
        None => None,
        Some(t) => match spec_days_between(now, t) {
            None => None,
            Some(d) => Some(years_in_days(d as int) as u32),
        },
    }
}

/// The view of an optional entry.
pub open spec fn opt_entry_view(e: Option<TimelineEntry>) -> Option<(Seq<char>, TimelineEvent, Seq<char>, Option<(i64, u32)>)> {
    match e {
        Some(x) => Some(entry_view(x)),
        None => None,
    }
}

/// What a timeline states of a set of profiles, the footprint aside: its
/// entries are the dated accounts sorted stably by instant, the earliest is
/// the first of them, and the years map to the sites joined in them.
pub open spec fn timeline_of(t: ActivityTimeline, ps: Seq<ClaimedProfile>) -> bool {
    &&& stably_sorted(entry_views(t.entries@), raw_entries(ps))
    &&& opt_entry_view(t.earliest_account) == if t.entries@.len() > 0 {
        Some(entry_view(t.entries@[0]))
    } else {
        None::<(Seq<char>, TimelineEvent, Seq<char>, Option<(i64, u32)>)>
    }
    &&& is_year_map(year_map_view(t.platforms_by_year@), year_sites(entry_views(t.entries@)))
}

fn footprint(first: Option<Timestamp>, now: Timestamp) -> (r: Option<u32>)
    ensures
        r == spec_footprint(ts_view(first), (now.secs, now.nanos)),
{
    match first {
        None => None,
        Some(t) => match days_between(now, t) {
            None => None,
            Some(d) => {
                let dd = d as i128;
                let y: i128 = if dd >= 0 {
                    dd / 365
                } else {
                    0 - (0 - dd) / 365
                };
                Some(y as u32)
            },
        },
    }
}

/// The instant of the earliest account of a timeline, where it has one and
/// it is dated.
pub open spec fn earliest_instant(t: ActivityTimeline) -> Option<(i64, u32)> {
    match t.earliest_account {
        Some(e) => ts_view(e.date_parsed),
        None => None,
    }
}

/// The timeline of a set of profiles, the footprint counted up to `now`.
pub fn build_timeline_at(profiles: &[ClaimedProfile], now: Timestamp) -> (t: ActivityTimeline)
    ensures
        timeline_of(t, profiles@),
        t.digital_footprint_years == spec_footprint(earliest_instant(t), (now.secs, now.nanos)),
{
    let entries = sort_entries(collect_entries(profiles));
    let earliest = if entries.len() > 0 {
        Some(copy_entry(&entries[0]))
    } else {
        None
    };
    let first = match &earliest {
        Some(e) => e.date_parsed,
        None => None,
    };
    let years = footprint(first, now);
    let by_year = group_by_year(&entries);
    ActivityTimeline {
        entries,
        earliest_account: earliest,
        digital_footprint_years: years,
        platforms_by_year: by_year,
    }
}

/// The timeline of a set of profiles, the footprint counted up to the
/// current time: a footprint is the count up to some instant, and there is
/// none without a dated earliest account or when the clock cannot be read.
pub fn build_timeline(profiles: &[ClaimedProfile]) -> (t: ActivityTimeline)
    ensures
        timeline_of(t, profiles@),
        t.digital_footprint_years is Some ==> earliest_instant(t) is Some,
        t.digital_footprint_years is Some ==> exists|now: (i64, u32)|
            t.digital_footprint_years == #[trigger] spec_footprint(earliest_instant(t), now),
{
    match now_instant() {
        Some(now) => {
            let t = build_timeline_at(profiles, now);
            assert(t.digital_footprint_years == spec_footprint(earliest_instant(t), (now.secs, now.nanos)));
            t
        },
        None => {
            let mut t = build_timeline_at(profiles, Timestamp { secs: 0, nanos: 0 });
            t.digital_footprint_years = None;
            t
        },
    }
}

// ---------------------------------------------------------------------------
// Laws
// ---------------------------------------------------------------------------

/// A timeline holds one entry per dated account, in time order: no entry
/// comes before an earlier one, the earliest account is the first entry
/// (none exactly when no account is dated), and no entry comes before it.
pub proof fn timeline_is_ordered(t: ActivityTimeline, ps: Seq<ClaimedProfile>)
    requires
        timeline_of(t, ps),
    ensures
        t.entries@.len() == raw_entries(ps).len(),
        forall|k: int, l: int|
            0 <= k < l < t.entries@.len() ==> !before(
                ts_view(#[trigger] t.entries@[l].date_parsed),
                ts_view(#[trigger] t.entries@[k].date_parsed),
            ),
        t.earliest_account is Some <==> raw_entries(ps).len() > 0,
        t.earliest_account matches Some(e) ==> forall|k: int|
            0 <= k < t.entries@.len() ==> !before(
                ts_view(#[trigger] t.entries@[k].date_parsed),
                ts_view(e.date_parsed),
            ),
{
    let out = entry_views(t.entries@);
    let inp = raw_entries(ps);
    let perm = choose|perm: Seq<int>| is_stable_order(out, inp, perm);
    assert(is_stable_order(out, inp, perm));
    lemma_before_facts();
    assert forall|k: int, l: int| 0 <= k < l < t.entries@.len() implies !before(
        ts_view(#[trigger] t.entries@[l].date_parsed),
        ts_view(#[trigger] t.entries@[k].date_parsed),
    ) by {
        assert(out[k] == entry_view(t.entries@[k]));
        assert(out[l] == entry_view(t.entries@[l]));
        assert(before(out[k].3, out[l].3) || out[k].3 == out[l].3);
        if before(out[l].3, out[k].3) {
            if before(out[k].3, out[l].3) {
                assert(before(out[k].3, out[k].3));
            }
        }
    }
    if t.entries@.len() > 0 {
        assert forall|k: int| 0 <= k < t.entries@.len() implies !before(
            ts_view(#[trigger] t.entries@[k].date_parsed),
            ts_view(t.entries@[0].date_parsed),
        ) by {
            assert(out[k] == entry_view(t.entries@[k]));
            assert(out[0] == entry_view(t.entries@[0]));
            if k > 0 {
                assert(before(out[0].3, out[k].3) || out[0].3 == out[k].3);
                if before(out[k].3, out[0].3) {
                    if before(out[0].3, out[k].3) {
                        assert(before(out[0].3, out[0].3));
                    }
                }
            }
        }
    }
}


proof fn lemma_decimal_digits(m: nat)
    ensures
        decimal(m).len() > 0,
        all_digits(decimal(m)),
        digits_value(decimal(m)) == m,
    decreases m,
{
    let ds = seq!['0', '1', '2', '3', '4', '5', '6', '7', '8', '9'];
    let d = m % 10;
    assert(digit_char(d) == ds[d as int]);
    assert(is_digit(digit_char(d)) && digit_char(d) as int - '0' as int == d) by {
        if d == 0 {} else if d == 1 {} else if d == 2 {} else if d == 3 {} else if d == 4 {}
        else if d == 5 {} else if d == 6 {} else if d == 7 {} else if d == 8 {} else {}
    }
    if m >= 10 {
        lemma_decimal_digits(m / 10);
        let p = decimal(m / 10);
        let q = decimal(m);
        assert(q == p.push(digit_char(d)));
        assert(q.drop_last() =~= p);
        assert forall|i: int| 0 <= i < q.len() implies is_digit(#[trigger] q[i]) by {
            if i < p.len() {
                assert(q[i] == p[i]);
            }
        }
        assert(q.last() == digit_char(d));
        assert(digits_value(q) == digits_value(p) * 10 + d);
        assert(m == (m / 10) * 10 + d);
    } else {
        assert(decimal(m) == seq![digit_char(m)]);
        assert(decimal(m).drop_last() =~= Seq::<char>::empty());
        assert(decimal(m).last() == digit_char(d));
        assert(digits_value(decimal(m)) == digits_value(Seq::<char>::empty()) * 10 + d);
    }
}

/// Reading back the numeral of a 32-bit integer (as `to_string` writes it)
/// gives the integer.
pub proof fn parse_i32_reads_decimal(n: i32)
    ensures
        spec_parse_i32(signed_decimal(n as int)) == Some(n),
{
    let s = signed_decimal(n as int);
    if n < 0 {
        let m = (-(n as int)) as nat;
        lemma_decimal_digits(m);
        assert(s == seq!['-'] + decimal(m));
        assert(s[0] == '-');
        assert(s.drop_first() =~= decimal(m));
    } else {
        lemma_decimal_digits(n as nat);
        let d = decimal(n as nat);
        assert(is_digit(d[0]));
    }
}

} // verus!
