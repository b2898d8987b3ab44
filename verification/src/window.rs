//! The days of a report: which rows of ads and which tickets of the CRM fall into them, and how
//! the two are joined.

use crate::crm::{
    ad_id_in, delivery_or_min, for_each_ticket, is_booked, is_qualified, is_visited, milestones,
    ticket_ad_id, ticket_funnel, ticket_stage, tickets_in, timed_view,
};
use crate::dates::{day_of, parse_day};
use crate::fetch::{show_day, shown_day};
use crate::json::{list_view, member, opt_str, text_in, text_or_empty, Json, JsonV};
use crate::snapshot::{ads_view, AdsDailyRow, AdsDailyRowV};
use crate::strs::{contains, has_text, less, push_text, same, text_lt, views};
use vstd::prelude::*;

pub mod laws;

verus! {

/// How long after its delivery a ticket may still move.
pub const LAG_HOURS: i64 = 72;

/// The days before the date of a snapshot.
#[derive(Debug)]
pub struct Window {
    /// The first and the last day.
    pub since: String,
    pub until: String,
    /// The seconds since the Unix epoch at which the first day begins and the last one ends.
    pub from: i64,
    pub to: i64,
    /// From when on tickets count as recent.
    pub lag: i64,
}

#[verifier::ext_equal]
pub struct WindowV {
    pub since: Seq<char>,
    pub until: Seq<char>,
    pub from: i64,
    pub to: i64,
    pub lag: i64,
}

impl View for Window {
    type V = WindowV;

    open spec fn view(&self) -> WindowV {
        WindowV {
            since: self.since@,
            until: self.until@,
            from: self.from,
            to: self.to,
            lag: self.lag,
        }
    }
}

/// The number of the day on which the Unix epoch begins.
pub const EPOCH_DAY: i64 = 719163;

/// The seconds since the Unix epoch at which a day begins, five and a half hours before it begins
/// in UTC.
pub open spec fn ist_midnight(day: int) -> int {
    (day - EPOCH_DAY) * 86400 - 19800
}

pub fn ist_midnight_epoch(day: i32) -> (r: i64)
    ensures
        r == ist_midnight(day as int),
{
    (day as i64 - EPOCH_DAY) * 86400 - 19800
}

/// The window of `days` days before a date, one at least; there is none where a day of it lies
/// outside the calendar.
pub open spec fn window_of(date: Seq<char>, days: nat) -> Option<WindowV> {
    let n = if days == 0 {
        1
    } else {
        days as int
    };
    match day_of(date) {
        Some(day) => match (shown_day(day - n), shown_day(day - 1)) {
            (Some(since), Some(until)) => Some(
                WindowV {
                    since,
                    until,
                    from: (ist_midnight(day as int) - n * 86400) as i64,
                    to: ist_midnight(day as int) as i64,
                    lag: (ist_midnight(day as int) - LAG_HOURS * 3600) as i64,
                },
            ),
            _ => None,
        },
        None => None,
    }
}

/// Finds the window of `days` days before a date.
pub fn window(date: &str, days: u32) -> (r: Option<Window>)
    ensures
        match r {
            Some(w) => window_of(date@, days as nat) == Some(w@),
            None => window_of(date@, days as nat) is None,
        },
{
    let day: i32 = match parse_day(date) {
        Some(d) => d,
        None => {
            return None;
        },
    };
    let n: i64 = if days == 0 {
        1
    } else {
        days as i64
    };
    let to: i64 = ist_midnight_epoch(day);
    match (show_day(day as i64 - n), show_day(day as i64 - 1)) {
        (Some(since), Some(until)) => Some(
            Window { since, until, from: to - n * 86400, to, lag: to - LAG_HOURS * 3600 },
        ),
        _ => None,
    }
}

// Rows

/// Whether a row is of a product and of the days.
pub open spec fn row_counts(r: AdsDailyRowV, product: Seq<char>, w: WindowV) -> bool {
    r._product == product && !text_lt(r.date_start, w.since) && !text_lt(w.until, r.date_start)
}

pub(crate) fn in_window(r: &AdsDailyRow, product: &str, w: &Window) -> (b: bool)
    ensures
        b == row_counts(r@, product@, w@),
{
    same(r._product.as_str(), product) && !less(r.date_start.as_str(), w.since.as_str()) && !less(
        w.until.as_str(),
        r.date_start.as_str(),
    )
}

/// The indices of the rows of a product and of the days.
pub open spec fn rows_in(rows: Seq<AdsDailyRowV>, product: Seq<char>, w: WindowV) -> Seq<int>
    decreases rows.len(),
{
    if rows.len() == 0 {
        Seq::empty()
    } else {
        let before = rows_in(rows.drop_last(), product, w);
        if row_counts(rows.last(), product, w) {
            before.push(rows.len() - 1)
        } else {
            before
        }
    }
}

pub open spec fn places(v: Seq<usize>) -> Seq<int> {
    v.map_values(|i: usize| i as int)
}

/// Finds the rows of a product and of the days.
pub fn pick_rows(rows: &Vec<AdsDailyRow>, product: &str, w: &Window) -> (r: Vec<usize>)
    ensures
        places(r@) == rows_in(ads_view(rows@), product@, w@),
        forall|k: int| 0 <= k < r@.len() ==> (#[trigger] r@[k]) < rows@.len(),
{
    let ghost all = ads_view(rows@);
    let mut out: Vec<usize> = Vec::new();
    let mut i: usize = 0;
    assert(places(out@) =~= Seq::empty());
    assert(all.take(0) =~= Seq::empty());
    while i < rows.len()
        invariant
            i <= rows@.len(),
            all == ads_view(rows@),
            places(out@) == rows_in(all.take(i as int), product@, w@),
            forall|k: int| 0 <= k < out@.len() ==> (#[trigger] out@[k]) < i,
        decreases rows.len() - i,
    {
        assert(all.take(i + 1).drop_last() =~= all.take(i as int));
        assert(all[i as int] == rows@[i as int]@);
        if in_window(&rows[i], product, w) {
            assert(places(out@.push(i)) =~= places(out@).push(i as int));
            out.push(i);
        }
        i += 1;
    }
    assert(all.take(i as int) =~= all);
    out
}

/// Just the rows of the product and of the days are there, each once and in their order.
pub proof fn law_picked_rows(rows: Seq<AdsDailyRowV>, product: Seq<char>, w: WindowV)
    ensures
        forall|k: int|
            0 <= k < rows_in(rows, product, w).len() ==> {
                let i = #[trigger] rows_in(rows, product, w)[k];
                0 <= i < rows.len() && row_counts(rows[i], product, w)
            },
        forall|a: int, b: int|
            0 <= a < b < rows_in(rows, product, w).len() ==> (#[trigger] rows_in(
                rows,
                product,
                w,
            )[a]) < (#[trigger] rows_in(rows, product, w)[b]),
        forall|i: int|
            0 <= i < rows.len() && row_counts(#[trigger] rows[i], product, w) ==> rows_in(
                rows,
                product,
                w,
            ).contains(i),
    decreases rows.len(),
{
    if rows.len() > 0 {
        let rest = rows.drop_last();
        law_picked_rows(rest, product, w);
        let before = rows_in(rest, product, w);
        let now = rows_in(rows, product, w);
        let n = rows.len() - 1;
        assert forall|k: int| 0 <= k < now.len() implies {
            let i = #[trigger] now[k];
            0 <= i < rows.len() && row_counts(rows[i], product, w)
        } by {
            if k < before.len() {
                assert(now[k] == before[k]);
                assert(rest[before[k]] == rows[before[k]]);
            }
        }
        assert forall|a: int, b: int| 0 <= a < b < now.len() implies (#[trigger] now[a]) < (
        #[trigger] now[b]) by {
            assert(now[a] == before[a]);
            if b < before.len() {
                assert(now[b] == before[b]);
            } else {
                assert(0 <= before[a] < rest.len());
            }
        }
        assert forall|i: int| 0 <= i < rows.len() && row_counts(
            #[trigger] rows[i],
            product,
            w,
        ) implies now.contains(i) by {
            if i < n {
                assert(rest[i] == rows[i]);
                assert(before.contains(i));
                let k = choose|k: int| 0 <= k < before.len() && before[k] == i;
                assert(now[k] == i);
            } else {
                assert(now[before.len() as int] == n);
            }
        }
    }
}

/// The index of the first of the rows of an ad, if there is one.
pub open spec fn row_of_ad(rows: Seq<AdsDailyRowV>, picked: Seq<int>, ad: Seq<char>) -> Option<int>
    decreases picked.len(),
{
    if picked.len() == 0 {
        None
    } else if rows[picked[0]].ad_id == ad {
        Some(picked[0])
    } else {
        row_of_ad(rows, picked.drop_first(), ad)
    }
}

pub(crate) fn find_ad(rows: &Vec<AdsDailyRow>, picked: &Vec<usize>, ad: &str) -> (r: Option<usize>)
    requires
        forall|k: int| 0 <= k < picked@.len() ==> (#[trigger] picked@[k]) < rows@.len(),
    ensures
        match r {
            Some(i) => i < rows@.len() && row_of_ad(ads_view(rows@), places(picked@), ad@) == Some(
                i as int,
            ),
            None => row_of_ad(ads_view(rows@), places(picked@), ad@) is None,
        },
{
    let ghost all = places(picked@);
    let mut k: usize = 0;
    assert(all.skip(0) =~= all);
    while k < picked.len()
        invariant
            k <= picked@.len(),
            all == places(picked@),
            forall|j: int| 0 <= j < picked@.len() ==> (#[trigger] picked@[j]) < rows@.len(),
            row_of_ad(ads_view(rows@), all, ad@) == row_of_ad(
                ads_view(rows@),
                all.skip(k as int),
                ad@,
            ),
        decreases picked.len() - k,
    {
        assert(all.skip(k as int).drop_first() =~= all.skip(k + 1));
        assert(all[k as int] == picked@[k as int]);
        let i: usize = picked[k];
        assert(ads_view(rows@)[i as int] == rows@[i as int]@);
        if same(rows[i].ad_id.as_str(), ad) {
            return Some(i);
        }
        k += 1;
    }
    None
}

// Tickets

/// A ticket of the days that one of the ads brought: the row of that ad, and how far it came.
#[derive(Debug, Clone, Copy, PartialEq, Eq, Structural)]
pub struct Hit {
    pub row: usize,
    pub qualified: bool,
    pub visit: bool,
    pub booking: bool,
    pub recent: bool,
}

/// The hit of a ticket, if it is one.
pub open spec fn hit_of(
    t: JsonV,
    rows: Seq<AdsDailyRowV>,
    picked: Seq<int>,
    w: WindowV,
) -> Option<Hit> {
    let at = delivery_or_min(t);
    if at < w.from || at >= w.to {
        None
    } else {
        match row_of_ad(
            rows,
            picked,
            match ad_id_in(t) {
                Some(a) => a,
                None => Seq::empty(),
            },
        ) {
            Some(i) => {
                let stage = text_or_empty(member(t, "stage"@));
                Some(
                    Hit {
                        row: i as usize,
                        qualified: is_qualified(stage),
                        visit: is_visited(stage),
                        booking: is_booked(stage, text_or_empty(member(t, "funnel"@))),
                        recent: at >= w.lag,
                    },
                )
            },
            None => None,
        }
    }
}

/// The hits among tickets.
pub open spec fn hits_of(
    tickets: Seq<JsonV>,
    rows: Seq<AdsDailyRowV>,
    picked: Seq<int>,
    w: WindowV,
) -> Seq<Hit>
    decreases tickets.len(),
{
    if tickets.len() == 0 {
        Seq::empty()
    } else {
        let before = hits_of(tickets.drop_last(), rows, picked, w);
        match hit_of(tickets.last(), rows, picked, w) {
            Some(h) => before.push(h),
            None => before,
        }
    }
}

fn find_hit(
    t: &Json,
    at: i64,
    rows: &Vec<AdsDailyRow>,
    picked: &Vec<usize>,
    w: &Window,
) -> (r: Option<Hit>)
    requires
        at == delivery_or_min(t@),
        forall|k: int| 0 <= k < picked@.len() ==> (#[trigger] picked@[k]) < rows@.len(),
    ensures
        r == hit_of(t@, ads_view(rows@), places(picked@), w@),
        r matches Some(h) ==> h.row < rows@.len(),
{
    if at < w.from || at >= w.to {
        return None;
    }
    let ad = match ticket_ad_id(t) {
        Some(a) => a,
        None => String::new(),
    };
    match find_ad(rows, picked, ad.as_str()) {
        Some(row) => {
            let (qualified, visit, booking) = milestones(
                ticket_stage(t).as_str(),
                ticket_funnel(t).as_str(),
            );
            Some(Hit { row, qualified, visit, booking, recent: at >= w.lag })
        },
        None => None,
    }
}

/// Joins the tickets of the CRM with the rows of the ads that brought them.
pub fn join_tickets(
    crm: &Json,
    rows: &Vec<AdsDailyRow>,
    picked: &Vec<usize>,
    w: &Window,
) -> (r: Vec<Hit>)
    requires
        forall|k: int| 0 <= k < picked@.len() ==> (#[trigger] picked@[k]) < rows@.len(),
    ensures
        r@ == hits_of(tickets_in(crm@), ads_view(rows@), places(picked@), w@),
        forall|k: int| 0 <= k < r@.len() ==> (#[trigger] r@[k]).row < rows@.len(),
{
    let timed = for_each_ticket(crm);
    let ghost all = tickets_in(crm@);
    let mut out: Vec<Hit> = Vec::new();
    let mut i: usize = 0;
    assert(all.take(0) =~= Seq::empty());
    assert(timed_view(timed@).len() == timed@.len());
    while i < timed.len()
        invariant
            i <= timed@.len(),
            timed@.len() == all.len(),
            timed_view(timed@) == all.map_values(|t: JsonV| (t, delivery_or_min(t))),
            forall|k: int| 0 <= k < picked@.len() ==> (#[trigger] picked@[k]) < rows@.len(),
            out@ == hits_of(all.take(i as int), ads_view(rows@), places(picked@), w@),
            forall|k: int| 0 <= k < out@.len() ==> (#[trigger] out@[k]).row < rows@.len(),
        decreases timed.len() - i,
    {
        assert(all.take(i + 1).drop_last() =~= all.take(i as int));
        assert(timed_view(timed@)[i as int] == (timed@[i as int].0@, timed@[i as int].1));
        match find_hit(timed[i].0, timed[i].1, rows, picked, w) {
            Some(h) => {
                out.push(h);
            },
            None => {},
        }
        i += 1;
    }
    assert(all.take(i as int) =~= all);
    out
}

// Leads of the ads

/// The actions that count as leads, the first one that is there before the others.
pub open spec fn lead_types() -> Seq<Seq<char>> {
    seq![
        "onsite_conversion.lead_grouped"@,
        "leadgen_grouped"@,
        "leadgen.other"@,
        "lead"@,
        "offsite_conversion.fb_pixel_lead"@,
    ]
}

/// The kind and the value of an action, where it has a kind.
pub open spec fn action_of(a: JsonV) -> Option<(Seq<char>, Seq<char>)> {
    match text_in(member(a, "action_type"@)) {
        Some(kind) => Some(
            (
                kind,
                match text_in(member(a, "value"@)) {
                    Some(v) => v,
                    None => "0"@,
                },
            ),
        ),
        None => None,
    }
}

/// The actions under their kinds; of two of one kind the later value counts.
pub open spec fn actions_by_kind(actions: Seq<JsonV>) -> Seq<(Seq<char>, Seq<char>)>
    decreases actions.len(),
{
    if actions.len() == 0 {
        Seq::empty()
    } else {
        let before = actions_by_kind(actions.drop_last());
        match action_of(actions.last()) {
            Some(p) => crate::provider::stored(before, p.0, p.1),
            None => before,
        }
    }
}

/// The values of the kinds that hold `lead`.
pub open spec fn lead_like(pairs: Seq<(Seq<char>, Seq<char>)>) -> Seq<Seq<char>>
    decreases pairs.len(),
{
    if pairs.len() == 0 {
        Seq::empty()
    } else {
        let before = lead_like(pairs.drop_last());
        if has_text(pairs.last().0, "lead"@) {
            before.push(pairs.last().1)
        } else {
            before
        }
    }
}

/// Which values count as leads: one, that is rounded, or several, whose sum is. A value that is no
/// number counts as none.
#[derive(Debug)]
pub enum LeadValues {
    One(String),
    Sum(Vec<String>),
}

pub enum LeadValuesV {
    One(Seq<char>),
    Sum(Seq<Seq<char>>),
}

impl View for LeadValues {
    type V = LeadValuesV;

    open spec fn view(&self) -> LeadValuesV {
        match self {
            LeadValues::One(s) => LeadValuesV::One(s@),
            LeadValues::Sum(v) => LeadValuesV::Sum(views(v@)),
        }
    }
}

/// The values that count, from the kind at `k` of the list on.
pub open spec fn lead_values_from(pairs: Seq<(Seq<char>, Seq<char>)>, k: int) -> LeadValuesV
    decreases 5 - k,
{
    if k < 0 || k >= 5 {
        LeadValuesV::Sum(lead_like(pairs))
    } else {
        match crate::provider::lookup(pairs, lead_types()[k]) {
            Some(v) => LeadValuesV::One(v),
            None => lead_values_from(pairs, k + 1),
        }
    }
}

/// The values of the leads of a row: that of the first kind that counts, else those of every kind
/// that holds `lead`.
pub open spec fn lead_values_of(actions: Seq<JsonV>) -> LeadValuesV {
    lead_values_from(actions_by_kind(actions), 0)
}

fn kinds_of(actions: &Vec<Json>) -> (r: crate::provider::TextMap)
    ensures
        r@ == actions_by_kind(list_view(actions@)),
        r.wf(),
{
    let ghost all = list_view(actions@);
    let mut out = crate::provider::TextMap::new();
    let mut i: usize = 0;
    assert(all.take(0) =~= Seq::empty());
    while i < actions.len()
        invariant
            i <= actions@.len(),
            all == list_view(actions@),
            out@ == actions_by_kind(all.take(i as int)),
            out.wf(),
        decreases actions.len() - i,
    {
        assert(all.take(i + 1).drop_last() =~= all.take(i as int));
        assert(all[i as int] == actions@[i as int]@);
        match opt_str(actions[i].get("action_type")) {
            Some(kind) => {
                let value = match opt_str(actions[i].get("value")) {
                    Some(v) => v,
                    None => "0",
                };
                out.insert(kind, value);
            },
            None => {},
        }
        i += 1;
    }
    assert(all.take(i as int) =~= all);
    out
}

fn lead_type(k: usize) -> (r: &'static str)
    requires
        k < 5,
    ensures
        r@ == lead_types()[k as int],
{
    if k == 0 {
        "onsite_conversion.lead_grouped"
    } else if k == 1 {
        "leadgen_grouped"
    } else if k == 2 {
        "leadgen.other"
    } else if k == 3 {
        "lead"
    } else {
        "offsite_conversion.fb_pixel_lead"
    }
}

/// Finds the values that count as the leads of a row.
pub fn lead_values(actions: &Vec<Json>) -> (r: LeadValues)
    ensures
        r@ == lead_values_of(list_view(actions@)),
{
    let kinds = kinds_of(actions);
    let ghost pairs = kinds@;
    let mut k: usize = 0;
    while k < 5
        invariant
            k <= 5,
            pairs == kinds@,
            pairs == actions_by_kind(list_view(actions@)),
            lead_values_from(pairs, 0) == lead_values_from(pairs, k as int),
        decreases 5 - k,
    {
        match kinds.get(lead_type(k)) {
            Some(v) => {
                return LeadValues::One(v.clone());
            },
            None => {},
        }
        k += 1;
    }
    let mut out: Vec<String> = Vec::new();
    let mut i: usize = 0;
    assert(views(out@) =~= Seq::empty());
    assert(pairs.take(0) =~= Seq::empty());
    assert(pairs.len() == kinds.pairs@.len());
    while i < kinds.pairs.len()
        invariant
            i <= kinds.pairs@.len(),
            pairs == kinds@,
            pairs.len() == kinds.pairs@.len(),
            views(out@) == lead_like(pairs.take(i as int)),
        decreases kinds.pairs.len() - i,
    {
        assert(pairs.take(i + 1).drop_last() =~= pairs.take(i as int));
        assert(pairs[i as int] == (kinds.pairs@[i as int].0@, kinds.pairs@[i as int].1@));
        if contains(kinds.pairs[i].0.as_str(), "lead") {
            push_text(&mut out, kinds.pairs[i].1.clone());
        }
        i += 1;
    }
    assert(pairs.take(i as int) =~= pairs);
    LeadValues::Sum(out)
}

} // verus!
