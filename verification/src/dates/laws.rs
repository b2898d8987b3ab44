//! Which of two points in time is the earlier one.

use crate::dates::{date_shown, day_of, day_start, is_before, Moment};
use vstd::prelude::*;

verus! {

/// A point in time is before another where fewer nanoseconds have passed before it; of two just one
/// is, where they differ.
pub proof fn law_earlier_is_before(a: Moment, b: Moment)
    requires
        a.nanos < 1000000000,
        b.nanos < 1000000000,
    ensures
        is_before(a, b) <==> a.secs * 1000000000 + a.nanos < b.secs * 1000000000 + b.nanos,
        a != b ==> is_before(a, b) != is_before(b, a),
{
}

/// A day begins a day after the one before it, and the day of the epoch at the epoch.
pub proof fn law_days_begin_a_day_apart(day: int)
    ensures
        day_start(day + 1) == day_start(day) + 24 * 60 * 60,
        day_start(719163) == 0,
{
}

/// What is no date is shown as it is.
pub proof fn law_other_texts_stay(s: Seq<char>, format: Seq<char>)
    requires
        day_of(s) is None,
    ensures
        date_shown(s, format) == s,
{
}

} // verus!
