//! Time partitioning: the storage-path prefixes that cover a time range.

use vstd::prelude::*;
use crate::text::{chars_of, string_of};

verus! {

pub const SECS_PER_MINUTE: i64 = 60;
pub const SECS_PER_HOUR: i64 = 3600;
pub const SECS_PER_DAY: i64 = 86400;

/// Largest day distance from 1970-01-01 that a timestamp of this library may have.
pub const MAX_DAYS: i64 = 92_000_000;
/// Largest distance in seconds from 1970-01-01T00:00:00Z of a timestamp.
pub const MAX_SECS: i64 = 7_948_800_000_000;

/// An instant in UTC: whole seconds since the Unix epoch and a sub-second part.
#[derive(Clone, Copy, Debug, PartialEq, Eq, Structural)]
pub struct Timestamp {
    pub secs: i64,
    pub nanos: u32,
}

impl Timestamp {
    pub open spec fn wf(&self) -> bool {
        -MAX_SECS <= self.secs <= MAX_SECS
    }

    /// The first whole minute at or before this instant, in seconds.
    pub open spec fn floor_minute(&self) -> int {
        self.secs - self.secs % 60
    }

    /// The first whole minute at or after this instant, in seconds.
    pub open spec fn ceil_minute(&self) -> int {
        if self.secs % 60 == 0 && self.nanos == 0 {
            self.secs as int
        } else {
            self.secs - self.secs % 60 + 60
        }
    }
}

/// The granularity of a storage bucket.
#[derive(Clone, Copy, Debug, PartialEq, Eq, Structural)]
pub enum Span {
    Day,
    Hour,
    Minute,
}

pub open spec fn span_secs(g: Span) -> int {
    match g {
        Span::Day => 86400,
        Span::Hour => 3600,
        Span::Minute => 60,
    }
}

/// The coarsest bucket that starts at `t` and ends no later than `e`.
pub open spec fn span_at(t: int, e: int) -> Span {
    if t % 86400 == 0 && t + 86400 <= e {
        Span::Day
    } else if t % 3600 == 0 && t + 3600 <= e {
        Span::Hour
    } else {
        Span::Minute
    }
}

/// The buckets, as granularity and start second, that cover `[t, e)` from left
/// to right, each the coarsest one that fits at its start.
pub open spec fn buckets(t: int, e: int) -> Seq<(Span, int)>
    decreases e - t + 60,
{
    if t >= e {
        seq![]
    } else {
        let n: int = if t % 86400 == 0 && t + 86400 <= e {
            86400
        } else if t % 3600 == 0 && t + 3600 <= e {
            3600
        } else {
            60
        };
        seq![(span_at(t, e), t)] + buckets(t + n, e)
    }
}

pub open spec fn digit(d: int) -> char {
    if d == 0 { '0' } else if d == 1 { '1' } else if d == 2 { '2' } else if d == 3 { '3' }
    else if d == 4 { '4' } else if d == 5 { '5' } else if d == 6 { '6' } else if d == 7 { '7' }
    else if d == 8 { '8' } else { '9' }
}

/// A number below 100 written with two digits.
pub open spec fn two_digits(n: int) -> Seq<char> {
    seq![digit(n / 10), digit(n % 10)]
}

/// Day 1 of the common era is 0001-01-01, so 1970-01-01 is this day of it.
pub const EPOCH_CE_DAY: i64 = 719_163;

/// What chrono writes, as `YYYY-MM-DD`, for a day counted from the common era.
pub uninterp spec fn date_label(ce_day: int) -> Seq<char>;

/// The storage prefix of the bucket `b` of `stream`:
/// `stream/date=YYYY-MM-DD/[hour=HH/[minute=MM/]]`.
pub open spec fn prefix_text(stream: Seq<char>, b: (Span, int)) -> Seq<char> {
    let t = b.1;
    let day = t / 86400;
    let hour = (t % 86400) / 3600;
    let minute = (t % 3600) / 60;
    stream + "/date="@ + date_label(day + EPOCH_CE_DAY) + "/"@
        + (if b.0 == Span::Day { seq![] } else { "hour="@ + two_digits(hour) + "/"@ })
        + (if b.0 == Span::Minute { "minute="@ + two_digits(minute) + "/"@ } else { seq![] })
}

/// The prefixes that cover `[start, end)`, widened to whole minutes.
pub open spec fn prefixes_spec(stream: Seq<char>, start: Timestamp, end: Timestamp) -> Seq<Seq<char>> {
    buckets(start.floor_minute(), end.ceil_minute()).map_values(|b: (Span, int)| prefix_text(stream, b))
}

/// Relies on chrono's `NaiveDate::from_num_days_from_ce_opt` and its `%Y-%m-%d`
/// formatting: the calendar date of a day counted from the common era. chrono
/// has a date for every day within about 262,000 years of the era, which the
/// bound on `ce_day` keeps to.
#[verifier::external_body]
fn date_text(ce_day: i32) -> (r: String)
    requires
        -MAX_DAYS - 2 + EPOCH_CE_DAY <= ce_day <= MAX_DAYS + 2 + EPOCH_CE_DAY,
    ensures
        r@ == date_label(ce_day as int),
{
    match chrono::NaiveDate::from_num_days_from_ce_opt(ce_day) {
        Some(date) => date.format("%Y-%m-%d").to_string(),
        None => String::new(),
    }
}

/// The remainder of `x` by `m` in `[0, m)`, for `m` a day, an hour or a minute.
fn floor_rem(x: i64, m: i64) -> (r: i64)
    requires
        m == SECS_PER_DAY || m == SECS_PER_HOUR || m == SECS_PER_MINUTE,
        -MAX_SECS - 86400 <= x <= MAX_SECS + 86400,
    ensures
        r as int == x as int % m as int,
{
    let q: i64 = 100_000_000 * (SECS_PER_DAY / m);
    let shifted: i64 = x + q * m;
    proof {
        vstd::arithmetic::div_mod::lemma_mod_multiples_vanish(q as int, x as int, m as int);
    }
    shifted % m
}

/// The day, counted from 1970-01-01, that holds second `t`.
fn day_of(t: i64) -> (d: i64)
    requires
        -MAX_SECS - 86400 <= t <= MAX_SECS + 86400,
    ensures
        d as int == t as int / 86400,
        -MAX_DAYS - 2 <= d <= MAX_DAYS + 2,
{
    let q: i64 = 100_000_000;
    let shifted: i64 = t + q * SECS_PER_DAY;
    proof {
        vstd::arithmetic::div_mod::lemma_mod_multiples_vanish(q as int, t as int, 86400);
        vstd::arithmetic::div_mod::lemma_fundamental_div_mod(t as int, 86400);
        vstd::arithmetic::div_mod::lemma_fundamental_div_mod(shifted as int, 86400);
    }
    shifted / SECS_PER_DAY - q
}

fn digit_char(d: i64) -> (c: char)
    requires
        0 <= d < 10,
    ensures
        c == digit(d as int),
{
    if d == 0 { '0' } else if d == 1 { '1' } else if d == 2 { '2' } else if d == 3 { '3' }
    else if d == 4 { '4' } else if d == 5 { '5' } else if d == 6 { '6' } else if d == 7 { '7' }
    else if d == 8 { '8' } else { '9' }
}

fn push_str(v: &mut Vec<char>, s: &str)
    ensures
        final(v)@ == old(v)@ + s@,
{
    let mut cs = chars_of(s);
    v.append(&mut cs);
}

fn push_two_digits(v: &mut Vec<char>, n: i64)
    requires
        0 <= n < 100,
    ensures
        final(v)@ == old(v)@ + two_digits(n as int),
{
    v.push(digit_char(n / 10));
    v.push(digit_char(n % 10));
    assert(final(v)@ =~= old(v)@ + two_digits(n as int));
}

/// The storage prefix of the bucket of granularity `g` that starts at second `t`.
pub fn bucket_prefix(stream: &str, g: Span, t: i64) -> (r: String)
    requires
        -MAX_SECS - 86400 <= t <= MAX_SECS + 86400,
    ensures
        r@ == prefix_text(stream@, (g, t as int)),
{
    let rem = floor_rem(t, SECS_PER_DAY);
    let day = day_of(t);
    let mut v = chars_of(stream);
    push_str(&mut v, "/date=");
    let date = date_text((day + EPOCH_CE_DAY) as i32);
    push_str(&mut v, date.as_str());
    push_str(&mut v, "/");
    let ghost head = v@;
    if g != Span::Day {
        push_str(&mut v, "hour=");
        push_two_digits(&mut v, rem / SECS_PER_HOUR);
        push_str(&mut v, "/");
    }
    let ghost mid = v@;
    if g == Span::Minute {
        push_str(&mut v, "minute=");
        push_two_digits(&mut v, floor_rem(t, SECS_PER_HOUR) / SECS_PER_MINUTE);
        push_str(&mut v, "/");
    }
    proof {
        reveal_strlit("/date=");
        reveal_strlit("/");
        reveal_strlit("hour=");
        reveal_strlit("minute=");
    }
    assert(v@ =~= prefix_text(stream@, (g, t as int)));
    string_of(&v)
}

/// The storage prefixes of `stream` that cover `[start, end)`, widened to whole
/// minutes: from left to right, at each point the coarsest bucket (day, hour,
/// minute) that starts there and does not reach past the end.
pub fn generate_prefixes(stream: &str, start: Timestamp, end: Timestamp) -> (r: Vec<String>)
    requires
        start.wf(),
        end.wf(),
    ensures
        r@.map_values(|p: String| p@) == prefixes_spec(stream@, start, end),
{
    let lo: i64 = start.secs - floor_rem(start.secs, SECS_PER_MINUTE);
    let end_rem = floor_rem(end.secs, SECS_PER_MINUTE);
    let hi: i64 = if end_rem == 0 && end.nanos == 0 {
        end.secs
    } else {
        end.secs - end_rem + SECS_PER_MINUTE
    };
    let ghost all = buckets(lo as int, hi as int);
    let ghost mut done: Seq<(Span, int)> = seq![];
    let mut out: Vec<String> = Vec::new();
    let mut t: i64 = lo;
    assert(done + buckets(t as int, hi as int) =~= all);
    while t < hi
        invariant
            lo <= t,
            t <= hi + 60 || t == lo,
            -MAX_SECS - 60 <= lo <= MAX_SECS,
            hi <= MAX_SECS + 60,
            done + buckets(t as int, hi as int) == all,
            out@.len() == done.len(),
            forall|i: int| 0 <= i < done.len() ==> #[trigger] out@[i]@ == prefix_text(stream@, done[i]),
        decreases hi + 60 - t,
    {
        let (g, n) = if floor_rem(t, SECS_PER_DAY) == 0 && t + SECS_PER_DAY <= hi {
            (Span::Day, SECS_PER_DAY)
        } else if floor_rem(t, SECS_PER_HOUR) == 0 && t + SECS_PER_HOUR <= hi {
            (Span::Hour, SECS_PER_HOUR)
        } else {
            (Span::Minute, SECS_PER_MINUTE)
        };
        assert(g == span_at(t as int, hi as int));
        assert(buckets(t as int, hi as int) == seq![(g, t as int)] + buckets(t + n, hi as int));
        let p = bucket_prefix(stream, g, t);
        out.push(p);
        proof {
            assert(done.push((g, t as int)) + buckets(t + n, hi as int)
                =~= done + (seq![(g, t as int)] + buckets(t + n, hi as int)));
            done = done.push((g, t as int));
        }
        t = t + n;
    }
    assert(buckets(t as int, hi as int) == Seq::<(Span, int)>::empty());
    assert(done =~= all);
    assert(out@.map_values(|p: String| p@) =~= prefixes_spec(stream@, start, end));
    out
}

/// The buckets between two whole minutes tile the range: each lies inside it,
/// the first starts at its start, each starts where the one before ends, and the
/// last ends at its end. So no bucket reaches past the range, and none is missing.
pub proof fn lemma_buckets_tile(t: int, e: int)
    requires
        t % 60 == 0,
        e % 60 == 0,
    ensures
        forall|i: int| 0 <= i < buckets(t, e).len() ==> t <= #[trigger] buckets(t, e)[i].1
            && buckets(t, e)[i].1 + span_secs(buckets(t, e)[i].0) <= e,
        buckets(t, e).len() > 0 ==> buckets(t, e)[0].1 == t,
        buckets(t, e).len() > 0 ==> buckets(t, e).last().1 + span_secs(buckets(t, e).last().0) == e,
        forall|i: int| 0 <= i < buckets(t, e).len() - 1 ==> #[trigger] buckets(t, e)[i + 1].1
            == buckets(t, e)[i].1 + span_secs(buckets(t, e)[i].0),
        t >= e <==> buckets(t, e).len() == 0,
    decreases e - t + 60,
{
    if t < e {
        let g = span_at(t, e);
        let n = span_secs(g);
        assert(t + n <= e);
        assert((t + n) % 60 == 0);
        lemma_buckets_tile(t + n, e);
        let b = buckets(t, e);
        let rest = buckets(t + n, e);
        assert(b == seq![(g, t)] + rest);
        assert forall|i: int| 0 <= i < b.len() - 1 implies #[trigger] b[i + 1].1 == b[i].1 + span_secs(b[i].0) by {
            assert(b[i + 1] == rest[i]);
            if i > 0 {
                assert(b[i] == rest[i - 1]);
                assert(rest[(i - 1) + 1].1 == rest[i - 1].1 + span_secs(rest[i - 1].0));
            } else {
                assert(b[0] == (g, t));
                assert(rest[0].1 == t + n);
            }
        }
        assert forall|i: int| 0 <= i < b.len() implies t <= #[trigger] b[i].1 && b[i].1 + span_secs(b[i].0) <= e by {
            if i > 0 {
                assert(b[i] == rest[i - 1]);
            }
        }
        if rest.len() > 0 {
            assert(b.last() == rest.last());
        }
    }
}

/// A range that is exactly one whole day is covered by that single day.
pub proof fn lemma_whole_day(t: int)
    requires
        t % 86400 == 0,
    ensures
        buckets(t, t + 86400) == seq![(Span::Day, t)],
{
    assert(span_at(t, t + 86400) == Span::Day);
    assert(buckets(t + 86400, t + 86400) == Seq::<(Span, int)>::empty());
    assert(buckets(t, t + 86400) =~= seq![(Span::Day, t)]);
}

/// A range shorter than a day, such as parts of two hours, gets no day-level
/// bucket, and one shorter than an hour gets only minute-level buckets.
pub proof fn lemma_no_overshoot(t: int, e: int)
    requires
        t % 60 == 0,
        e % 60 == 0,
    ensures
        e - t < 86400 ==> forall|i: int| 0 <= i < buckets(t, e).len() ==> #[trigger] buckets(t, e)[i].0 != Span::Day,
        e - t < 3600 ==> forall|i: int| 0 <= i < buckets(t, e).len() ==> #[trigger] buckets(t, e)[i].0 == Span::Minute,
{
    lemma_buckets_tile(t, e);
    let b = buckets(t, e);
    assert forall|i: int| 0 <= i < b.len() implies span_secs(#[trigger] b[i].0) <= e - t by {
        assert(t <= b[i].1 && b[i].1 + span_secs(b[i].0) <= e);
    }
}

/// Every whole day inside the range is one day-level bucket.
pub proof fn lemma_whole_day_kept(t: int, e: int, d: int)
    requires
        t % 60 == 0,
        e % 60 == 0,
        d % 86400 == 0,
        t <= d,
        d + 86400 <= e,
    ensures
        exists|i: int| 0 <= i < buckets(t, e).len() && #[trigger] buckets(t, e)[i] == (Span::Day, d),
    decreases d - t,
{
    let g = span_at(t, e);
    let n = span_secs(g);
    let b = buckets(t, e);
    assert(b == seq![(g, t)] + buckets(t + n, e));
    if t == d {
        assert(b[0] == (Span::Day, d));
    } else {
        assert(d % 3600 == 0);
        assert(d % 60 == 0);
        assert(t + n <= d);
        assert((t + n) % 60 == 0);
        lemma_whole_day_kept(t + n, e, d);
        let rest = buckets(t + n, e);
        let i = choose|i: int| 0 <= i < rest.len() && #[trigger] rest[i] == (Span::Day, d);
        assert(b[i + 1] == rest[i]);
    }
}

/// Every whole hour inside the range lies inside one bucket of an hour or a day.
pub proof fn lemma_whole_hour_kept(t: int, e: int, h: int)
    requires
        t % 60 == 0,
        e % 60 == 0,
        h % 3600 == 0,
        t <= h,
        h + 3600 <= e,
    ensures
        exists|i: int| 0 <= i < buckets(t, e).len() && #[trigger] buckets(t, e)[i].0 != Span::Minute
            && buckets(t, e)[i].1 <= h && h + 3600 <= buckets(t, e)[i].1 + span_secs(buckets(t, e)[i].0),
    decreases h - t,
{
    let g = span_at(t, e);
    let n = span_secs(g);
    let b = buckets(t, e);
    assert(b == seq![(g, t)] + buckets(t + n, e));
    if t == h || (g == Span::Day && h < t + n) {
        assert(b[0] == (g, t));
        assert(b[0].0 != Span::Minute);
        assert(h + 3600 <= t + n);
    } else {
        assert(h % 60 == 0);
        assert(t + n <= h);
        assert((t + n) % 60 == 0);
        lemma_whole_hour_kept(t + n, e, h);
        let rest = buckets(t + n, e);
        let i = choose|i: int| 0 <= i < rest.len() && #[trigger] rest[i].0 != Span::Minute
            && rest[i].1 <= h && h + 3600 <= rest[i].1 + span_secs(rest[i].0);
        assert(b[i + 1] == rest[i]);
    }
}

/// Two whole hours are covered by their two hour-level buckets.
pub proof fn lemma_two_hours(t: int)
    requires
        t % 3600 == 0,
    ensures
        buckets(t, t + 7200) == seq![(Span::Hour, t), (Span::Hour, t + 3600)],
{
    let e = t + 7200;
    assert(span_at(t, e) == Span::Hour);
    assert((t + 3600) % 3600 == 0);
    assert(span_at(t + 3600, e) == Span::Hour);
    assert(buckets(e, e) == Seq::<(Span, int)>::empty());
    assert(buckets(t + 3600, e) =~= seq![(Span::Hour, t + 3600)]);
    assert(buckets(t, e) =~= seq![(Span::Hour, t), (Span::Hour, t + 3600)]);
}

} // verus!
