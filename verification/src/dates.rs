//! Calendar dates and points in time, with `chrono` at the edge. A date is the number of its day,
//! 1 being the first of January of the year 1.

use chrono::Datelike;
use vstd::prelude::*;

pub mod laws;

verus! {

/// Names what `DateTime::parse_from_rfc3339` makes of a text: the seconds since the Unix epoch.
pub uninterp spec fn rfc3339_epoch_of(s: Seq<char>) -> Option<i64>;

/// Names what `DateTime::parse_from_str` makes of a text and a format with an offset: the seconds
/// since the Unix epoch.
pub uninterp spec fn zoned_epoch_of(s: Seq<char>, format: Seq<char>) -> Option<i64>;

/// Names what `NaiveDateTime::parse_from_str` makes of a text and a format, taken as UTC: the
/// seconds since the Unix epoch.
pub uninterp spec fn naive_epoch_of(s: Seq<char>, format: Seq<char>) -> Option<i64>;

/// Names what `NaiveDate::parse_from_str` makes of a text in the format `%Y-%m-%d`.
pub uninterp spec fn day_of(s: Seq<char>) -> Option<i32>;

/// Names the text of a date in the format `%Y-%m-%d`, where `chrono` has that date.
pub uninterp spec fn day_text_of(day: i32) -> Option<Seq<char>>;

/// Names the text of the UTC date of a point in time, where `chrono` has it.
pub uninterp spec fn epoch_day_text_of(epoch: i64) -> Option<Seq<char>>;

/// Parses a point in time with `DateTime::parse_from_rfc3339`, which depends on the text alone.
#[verifier::external_body]
pub(crate) fn rfc3339_epoch(s: &str) -> (r: Option<i64>)
    ensures
        r == rfc3339_epoch_of(s@),
{
    chrono::DateTime::parse_from_rfc3339(s).ok().map(|d| d.timestamp())
}

/// Parses a point in time with `DateTime::parse_from_str`, which depends on the text and the format
/// alone and counts the offset in.
#[verifier::external_body]
pub(crate) fn zoned_epoch(s: &str, format: &str) -> (r: Option<i64>)
    ensures
        r == zoned_epoch_of(s@, format@),
{
    chrono::DateTime::parse_from_str(s, format).ok().map(|d| d.timestamp())
}

/// Parses a point in time with `NaiveDateTime::parse_from_str`, which depends on the text and the
/// format alone, and takes it as UTC.
#[verifier::external_body]
pub(crate) fn naive_epoch(s: &str, format: &str) -> (r: Option<i64>)
    ensures
        r == naive_epoch_of(s@, format@),
{
    chrono::NaiveDateTime::parse_from_str(s, format).ok().map(|d| d.and_utc().timestamp())
}

/// Parses a date with `NaiveDate::parse_from_str`, which depends on the text alone.
#[verifier::external_body]
pub(crate) fn parse_day(s: &str) -> (r: Option<i32>)
    ensures
        r == day_of(s@),
{
    chrono::NaiveDate::parse_from_str(s, "%Y-%m-%d").ok().map(|d| d.num_days_from_ce())
}

/// Prints a date with `NaiveDate::format`; there is none for a day that
/// `NaiveDate::from_num_days_from_ce_opt` does not have.
#[verifier::external_body]
pub(crate) fn day_text(day: i32) -> (r: Option<String>)
    ensures
        crate::strs::opt_view(r) == day_text_of(day),
{
    chrono::NaiveDate::from_num_days_from_ce_opt(day).map(|d| d.format("%Y-%m-%d").to_string())
}

/// Prints the UTC date of a point in time, where `DateTime::from_timestamp` has one.
#[verifier::external_body]
pub(crate) fn epoch_day_text(epoch: i64) -> (r: Option<String>)
    ensures
        crate::strs::opt_view(r) == epoch_day_text_of(epoch),
{
    chrono::DateTime::from_timestamp(epoch, 0).map(|d| d.format("%Y-%m-%d").to_string())
}


/// A point in time: the seconds since the Unix epoch and the nanoseconds behind them.
#[derive(Debug, Clone, Copy, PartialEq, Eq, Structural)]
pub struct Moment {
    pub secs: i64,
    pub nanos: u32,
}

/// Whether a point in time is before another.
pub open spec fn is_before(a: Moment, b: Moment) -> bool {
    a.secs < b.secs || (a.secs == b.secs && a.nanos < b.nanos)
}

pub fn earlier(a: Moment, b: Moment) -> (r: bool)
    ensures
        r == is_before(a, b),
{
    a.secs < b.secs || (a.secs == b.secs && a.nanos < b.nanos)
}

/// Names what parsing a text as a `DateTime<Utc>` gives.
pub uninterp spec fn moment_of(s: Seq<char>) -> Option<Moment>;

/// Names the text of a point in time in a format, in UTC, where `chrono` has that point.
pub uninterp spec fn moment_text_of(secs: i64, format: Seq<char>) -> Option<Seq<char>>;

/// Parses a point in time with `DateTime<Utc>`'s `FromStr`, which depends on the text alone.
#[verifier::external_body]
pub(crate) fn parse_moment(s: &str) -> (r: Option<Moment>)
    ensures
        r == moment_of(s@),
{
    s.parse::<chrono::DateTime<chrono::Utc>>().ok().map(
        |d| Moment { secs: d.timestamp(), nanos: d.timestamp_subsec_nanos() },
    )
}

/// Prints a point in time with `DateTime::format`, where `DateTime::from_timestamp` has it. The
/// formats are those of whole minutes and seconds, and of days.
#[verifier::external_body]
pub(crate) fn moment_text(secs: i64, format: &'static str) -> (r: Option<String>)
    requires
        format@ == "%Y-%m-%d %H:%M"@ || format@ == "%Y-%m-%d %H:%M:%S"@ || is_day_format(format@),
    ensures
        crate::strs::opt_view(r) == moment_text_of(secs, format@),
{
    chrono::DateTime::from_timestamp(secs, 0).map(|d| d.format(format).to_string())
}

/// A point in time to the minute, as it is shown.
pub open spec fn minute_shown(m: Moment) -> Seq<char> {
    match moment_text_of(m.secs, "%Y-%m-%d %H:%M"@) {
        Some(t) => t,
        None => Seq::empty(),
    }
}

/// A point in time to the second, as it is shown.
pub open spec fn second_shown(m: Moment) -> Seq<char> {
    match moment_text_of(m.secs, "%Y-%m-%d %H:%M:%S"@) {
        Some(t) => t,
        None => Seq::empty(),
    }
}

pub fn show_minute(m: Moment) -> (r: String)
    ensures
        r@ == minute_shown(m),
{
    match moment_text(m.secs, "%Y-%m-%d %H:%M") {
        Some(t) => t,
        None => String::new(),
    }
}

pub fn show_second(m: Moment) -> (r: String)
    ensures
        r@ == second_shown(m),
{
    match moment_text(m.secs, "%Y-%m-%d %H:%M:%S") {
        Some(t) => t,
        None => String::new(),
    }
}

/// Names the text of a point in time as `serde` writes it, where `chrono` has that point.
pub uninterp spec fn stamp_of(secs: i64, nanos: u32) -> Option<Seq<char>>;

/// Whether a point in time is of the years 1970 to 9999 and no leap second.
pub open spec fn is_common(m: Moment) -> bool {
    0 <= m.secs < 253402300800 && m.nanos < 1000000000
}

pub open spec fn stamp_reads_back(text: Option<Seq<char>>, m: Moment) -> bool {
    is_common(m) ==> (text matches Some(t) && moment_of(t) == Some(m))
}

/// Prints a point in time with `DateTime::to_rfc3339_opts`, as many digits of the second as it has
/// and `Z` for UTC: what `DateTime`'s `Serialize` writes. There is a text where
/// `DateTime::from_timestamp` has the point, and for a common one `DateTime<Utc>`'s `FromStr` reads
/// it back.
#[verifier::external_body]
pub(crate) fn moment_stamp(secs: i64, nanos: u32) -> (r: Option<String>)
    ensures
        crate::strs::opt_view(r) == stamp_of(secs, nanos),
        stamp_reads_back(crate::strs::opt_view(r), (Moment { secs, nanos })),
{
    chrono::DateTime::from_timestamp(secs, nanos).map(
        |d| d.to_rfc3339_opts(chrono::SecondsFormat::AutoSi, true),
    )
}

/// A point in time as it is written.
pub open spec fn stamp_shown(m: Moment) -> Seq<char> {
    match stamp_of(m.secs, m.nanos) {
        Some(t) => t,
        None => Seq::empty(),
    }
}

/// The text of a point in time as it is written. A common one is read back.
pub fn show_stamp(m: Moment) -> (r: String)
    ensures
        r@ == stamp_shown(m),
        is_common(m) ==> moment_of(r@) == Some(m),
{
    match moment_stamp(m.secs, m.nanos) {
        Some(t) => t,
        None => String::new(),
    }
}

// Newest first

/// An order that is newest first, with one more put in, behind those that are not older.
pub open spec fn newest_with(order: Seq<int>, times: Seq<Moment>, i: int) -> Seq<int>
    decreases order.len(),
{
    if order.len() == 0 || !is_before(times[order.last()], times[i]) {
        order.push(i)
    } else {
        newest_with(order.drop_last(), times, i).push(order.last())
    }
}

/// The indices of the first `n` times, newest first; those of one time stay in their order.
pub open spec fn newest_order(times: Seq<Moment>, n: int) -> Seq<int>
    decreases n,
{
    if n <= 0 {
        Seq::empty()
    } else {
        newest_with(newest_order(times, n - 1), times, n - 1)
    }
}

/// Whether an order is newest first, keeps those of one time in their order, and holds no index
/// from `n` on.
pub open spec fn is_newest_first(order: Seq<int>, times: Seq<Moment>, n: int) -> bool {
    &&& forall|a: int| 0 <= a < order.len() ==> 0 <= (#[trigger] order[a]) < n
    &&& forall|a: int, b: int|
        0 <= a < b < order.len() ==> !is_before(
            times[#[trigger] order[a]],
            times[#[trigger] order[b]],
        ) && (is_before(times[order[b]], times[order[a]]) || order[a] < order[b])
}

proof fn lemma_newest_with(order: Seq<int>, times: Seq<Moment>, i: int)
    requires
        is_newest_first(order, times, i),
        i >= 0,
    ensures
        is_newest_first(newest_with(order, times, i), times, i + 1),
        newest_with(order, times, i).len() == order.len() + 1,
        forall|x: int|
            #[trigger] newest_with(order, times, i).contains(x) <==> x == i || order.contains(x),
    decreases order.len(),
{
    let r = newest_with(order, times, i);
    if order.len() == 0 || !is_before(times[order.last()], times[i]) {
        assert(r =~= order.push(i));
        assert forall|a: int, b: int| 0 <= a < b < r.len() implies !is_before(
            times[#[trigger] r[a]],
            times[#[trigger] r[b]],
        ) && (is_before(times[r[b]], times[r[a]]) || r[a] < r[b]) by {
            assert(r[a] == order[a]);
            if b < order.len() {
                assert(r[b] == order[b]);
            } else if a < order.len() - 1 {
                assert(!is_before(times[order[a]], times[order[order.len() - 1]]));
            }
        }
        assert forall|x: int| #[trigger] r.contains(x) <==> x == i || order.contains(x) by {
            if order.contains(x) {
                let k = choose|k: int| 0 <= k < order.len() && order[k] == x;
                assert(r[k] == x);
            }
            assert(r[order.len() as int] == i);
        }
    } else {
        let rest = order.drop_last();
        assert(forall|a: int| 0 <= a < rest.len() ==> #[trigger] rest[a] == order[a]);
        lemma_newest_with(rest, times, i);
        let q = newest_with(rest, times, i);
        let last = order.last();
        assert(r =~= q.push(last));
        assert(order[order.len() - 1] == last);
        assert forall|a: int, b: int| 0 <= a < b < r.len() implies !is_before(
            times[#[trigger] r[a]],
            times[#[trigger] r[b]],
        ) && (is_before(times[r[b]], times[r[a]]) || r[a] < r[b]) by {
            assert(r[a] == q[a]);
            if b < q.len() {
                assert(r[b] == q[b]);
            } else {
                assert(q.contains(q[a]));
                if q[a] != i {
                    let k = choose|k: int| 0 <= k < rest.len() && rest[k] == q[a];
                    assert(order[k] == q[a]);
                }
            }
        }
        assert forall|a: int| 0 <= a < r.len() implies 0 <= (#[trigger] r[a]) < i + 1 by {
            if a < q.len() {
                assert(r[a] == q[a]);
            }
        }
        assert forall|x: int| #[trigger] r.contains(x) <==> x == i || order.contains(x) by {
            if r.contains(x) {
                let k = choose|k: int| 0 <= k < r.len() && r[k] == x;
                if k < q.len() {
                    assert(q[k] == x);
                    assert(q.contains(x));
                    if x != i {
                        let m = choose|m: int| 0 <= m < rest.len() && rest[m] == x;
                        assert(order[m] == x);
                    }
                }
            }
            if order.contains(x) {
                let k = choose|k: int| 0 <= k < order.len() && order[k] == x;
                if k < rest.len() {
                    assert(rest[k] == x);
                    assert(q.contains(x));
                    let m = choose|m: int| 0 <= m < q.len() && q[m] == x;
                    assert(r[m] == x);
                } else {
                    assert(r[q.len() as int] == x);
                }
            }
            if x == i {
                assert(q.contains(i));
                let m = choose|m: int| 0 <= m < q.len() && q[m] == i;
                assert(r[m] == i);
            }
        }
    }
}

/// The order is newest first, keeps those of one time in their order, and holds every index once.
pub proof fn law_order_is_newest_first(times: Seq<Moment>, n: int)
    requires
        0 <= n <= times.len(),
    ensures
        is_newest_first(newest_order(times, n), times, n),
        newest_order(times, n).len() == n,
        forall|x: int| 0 <= x < n ==> #[trigger] newest_order(times, n).contains(x),
    decreases n,
{
    if n > 0 {
        law_order_is_newest_first(times, n - 1);
        let before = newest_order(times, n - 1);
        lemma_newest_with(before, times, n - 1);
        assert forall|x: int| 0 <= x < n implies #[trigger] newest_order(times, n).contains(x) by {
            if x < n - 1 {
                assert(before.contains(x));
            }
        }
    }
}

pub open spec fn indices(v: Seq<usize>) -> Seq<int> {
    v.map_values(|i: usize| i as int)
}

/// The indices of times, newest first.
pub fn order_newest(times: &Vec<Moment>) -> (r: Vec<usize>)
    ensures
        indices(r@) == newest_order(times@, times@.len() as int),
        r@.len() == times@.len(),
        forall|k: int| 0 <= k < r@.len() ==> (#[trigger] r@[k]) < times@.len(),
{
    let mut out: Vec<usize> = Vec::new();
    let mut i: usize = 0;
    assert(indices(out@) =~= Seq::empty());
    while i < times.len()
        invariant
            i <= times@.len(),
            indices(out@) == newest_order(times@, i as int),
        decreases times.len() - i,
    {
        proof {
            law_order_is_newest_first(times@, i as int);
        }
        put_newest(&mut out, times, i);
        i += 1;
    }
    proof {
        law_order_is_newest_first(times@, i as int);
        assert(indices(out@).len() == out@.len());
        assert forall|k: int| 0 <= k < out@.len() implies (#[trigger] out@[k]) < times@.len() by {
            assert(indices(out@)[k] == out@[k]);
        }
    }
    out
}

fn put_newest(v: &mut Vec<usize>, times: &Vec<Moment>, i: usize)
    requires
        i < times@.len(),
        is_newest_first(indices(old(v)@), times@, i as int),
    ensures
        indices(final(v)@) == newest_with(indices(old(v)@), times@, i as int),
{
    let ghost all = indices(v@);
    let ghost given = v@;
    let mut k: usize = v.len();
    assert(all.take(k as int) =~= all);
    assert(newest_with(all, times@, i as int) + all.skip(k as int) =~= newest_with(
        all,
        times@,
        i as int,
    ));
    assert forall|m: int| 0 <= m < v@.len() implies (#[trigger] v@[m]) < times@.len() by {
        assert(all[m] == v@[m]);
    }
    while k > 0 && earlier(times[v[k - 1]], times[i])
        invariant
            k <= v@.len(),
            v@ == given,
            i < times@.len(),
            forall|m: int| 0 <= m < v@.len() ==> (#[trigger] v@[m]) < times@.len(),
            all == indices(given),
            newest_with(all.take(k as int), times@, i as int) + all.skip(k as int) == newest_with(
                all,
                times@,
                i as int,
            ),
        decreases k,
    {
        let ghost head = all.take(k as int);
        assert(head.drop_last() =~= all.take(k - 1));
        assert(all[k - 1] == v@[k - 1]);
        assert(head.last() == all[k - 1]);
        assert(newest_with(all.take(k - 1), times@, i as int) + all.skip(k - 1) =~= newest_with(
            head,
            times@,
            i as int,
        ) + all.skip(k as int));
        k -= 1;
    }
    proof {
        let head = all.take(k as int);
        if k > 0 {
            assert(all[k - 1] == v@[k - 1]);
            assert(head.last() == all[k - 1]);
        }
        assert(newest_with(head, times@, i as int) == head.push(i as int));
    }
    v.insert(k, i);
    assert(indices(v@) =~= all.take(k as int).push(i as int) + all.skip(k as int));
}

// Dates in other forms

/// The seconds since the Unix epoch at which a day begins in UTC.
pub open spec fn day_start(day: int) -> int {
    (day - 719163) * 86400
}

/// The forms without a time of day.
pub open spec fn is_day_format(format: Seq<char>) -> bool {
    format == "%d-%b"@ || format == "%d-%b-%Y"@ || format == "%d %b"@
}

/// A date in another form; a text that is no date stays as it is.
pub open spec fn date_shown(s: Seq<char>, format: Seq<char>) -> Seq<char> {
    match day_of(s) {
        Some(d) => match moment_text_of(day_start(d as int) as i64, format) {
            Some(t) => t,
            None => s,
        },
        None => s,
    }
}

pub(crate) fn show_date(s: &str, format: &'static str) -> (r: String)
    requires
        is_day_format(format@),
    ensures
        r@ == date_shown(s@, format@),
{
    match parse_day(s) {
        Some(d) => match moment_text((d as i64 - 719163) * 86400, format) {
            Some(t) => t,
            None => s.to_owned(),
        },
        None => s.to_owned(),
    }
}

} // verus!
