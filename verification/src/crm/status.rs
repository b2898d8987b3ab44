//! Where the data of the CRM stands, and what to do next.

use crate::crm::check::{greatest, least};
use crate::crm::fetch::{flagged_view, newest_flagged, newest_with_ads};
use crate::crm::source::{bad_key_text, parse, spec_read, RequestSpec, RequestSpecV};
use crate::crm::{delivery_or_min, for_each_ticket, tickets_in, timed_view};
use crate::dates::{epoch_day_text, epoch_day_text_of};
use crate::error::Error;
use crate::json::{json_parsed, toml_parsed, Json, JsonV};
use crate::provider::{lookup, text_pairs, TextMap};
use crate::strs::{
    after_prefix, cat2, cat3, cat4, cat7, chars_of, dec, decimal_len, join, joined,
    lemma_views_push, opt_view, same, slice_text, strip_prefix, views,
};
use vstd::prelude::*;

pub mod laws;

verus! {

pub open spec fn is_brace(c: char) -> bool {
    c == '{' || c == '}'
}

/// A text without the braces at its start.
pub open spec fn after_braces(s: Seq<char>) -> Seq<char>
    decreases s.len(),
{
    if s.len() > 0 && is_brace(s[0]) {
        after_braces(s.drop_first())
    } else {
        s
    }
}

/// A text without the braces at its end.
pub open spec fn before_braces(s: Seq<char>) -> Seq<char>
    decreases s.len(),
{
    if s.len() > 0 && is_brace(s.last()) {
        before_braces(s.drop_last())
    } else {
        s
    }
}

/// A text without the braces at its two ends.
pub open spec fn unbraced(s: Seq<char>) -> Seq<char> {
    before_braces(after_braces(s))
}

fn trim_braces(s: &str) -> (r: String)
    ensures
        r@ == unbraced(s@),
{
    let v = chars_of(s);
    let mut from: usize = 0;
    assert(v@.skip(0) =~= v@);
    while from < v.len() && (v[from] == '{' || v[from] == '}')
        invariant
            from <= v@.len(),
            v@ == s@,
            after_braces(v@.skip(from as int)) == after_braces(s@),
        decreases v.len() - from,
    {
        assert(v@.skip(from as int).drop_first() =~= v@.skip(from + 1));
        from += 1;
    }
    let ghost rest = v@.skip(from as int);
    let mut to: usize = v.len();
    assert(v@.subrange(from as int, to as int) =~= rest);
    while to > from && (v[to - 1] == '{' || v[to - 1] == '}')
        invariant
            from <= to <= v@.len(),
            rest == v@.skip(from as int),
            before_braces(v@.subrange(from as int, to as int)) == before_braces(rest),
        decreases to,
    {
        assert(v@.subrange(from as int, to as int).drop_last() =~= v@.subrange(
            from as int,
            to - 1,
        ));
        to -= 1;
    }
    slice_text(&v, from, to)
}

/// The secrets that values refer to and that are not stored, in the order of the values.
pub open spec fn missing_secrets(
    values: Seq<(Seq<char>, Seq<char>)>,
    stored: Seq<(Seq<char>, Seq<char>)>,
) -> Seq<Seq<char>>
    decreases values.len(),
{
    if values.len() == 0 {
        Seq::empty()
    } else {
        let before = missing_secrets(values.drop_last(), stored);
        match after_prefix(unbraced(values.last().1), "secret:"@) {
            Some(name) => if lookup(stored, name) is None {
                before.push(name)
            } else {
                before
            },
            None => before,
        }
    }
}

/// The secrets that a request refers to and that are not stored.
pub open spec fn request_missing(
    request: Option<RequestSpecV>,
    stored: Seq<(Seq<char>, Seq<char>)>,
) -> Seq<Seq<char>> {
    match request {
        Some(r) => missing_secrets(r.headers, stored) + missing_secrets(r.query, stored),
        None => Seq::empty(),
    }
}

fn push_missing(out: &mut Vec<String>, values: &TextMap, stored: &TextMap)
    ensures
        views(final(out)@) == views(old(out)@) + missing_secrets(values@, stored@),
{
    let ghost start = views(out@);
    let ghost all = values@;
    let mut i: usize = 0;
    assert(all.take(0) =~= Seq::empty());
    assert(start + missing_secrets(all.take(0), stored@) =~= start);
    while i < values.pairs.len()
        invariant
            i <= values.pairs@.len(),
            all == text_pairs(values.pairs@),
            views(out@) == start + missing_secrets(all.take(i as int), stored@),
        decreases values.pairs.len() - i,
    {
        assert(all.take(i + 1).drop_last() =~= all.take(i as int));
        assert(all[i as int] == (values.pairs@[i as int].0@, values.pairs@[i as int].1@));
        let ghost before = missing_secrets(all.take(i as int), stored@);
        match strip_prefix(trim_braces(values.pairs[i].1.as_str()).as_str(), "secret:") {
            Some(name) => {
                if stored.get(name.as_str()).is_none() {
                    proof {
                        lemma_views_push(out@, name);
                        assert((start + before).push(name@) =~= start + before.push(name@));
                    }
                    out.push(name);
                }
            },
            None => {},
        }
        i += 1;
    }
    assert(all.take(i as int) =~= all);
}

/// The times of delivery of tickets that are not the least `i64`.
pub open spec fn real_times(times: Seq<i64>) -> Seq<i64>
    decreases times.len(),
{
    if times.len() == 0 {
        Seq::empty()
    } else if times.last() > i64::MIN {
        real_times(times.drop_last()).push(times.last())
    } else {
        real_times(times.drop_last())
    }
}

pub open spec fn day_shown(epoch: i64) -> Seq<char> {
    match epoch_day_text_of(epoch) {
        Some(t) => t,
        None => "?"@,
    }
}

fn ep_date(epoch: i64) -> (r: String)
    ensures
        r@ == day_shown(epoch),
{
    match epoch_day_text(epoch) {
        Some(t) => t,
        None => "?".to_owned(),
    }
}

/// The range of the times of delivery, as it is shown behind the count.
pub open spec fn range_text(times: Seq<i64>) -> Seq<char> {
    let t = real_times(times);
    if t.len() > 0 {
        ", deliveries "@ + day_shown(least(t)) + " .. "@ + day_shown(greatest(t))
    } else {
        Seq::empty()
    }
}

pub open spec fn ticket_times(crm: JsonV) -> Seq<i64> {
    tickets_in(crm).map_values(|t: JsonV| delivery_or_min(t))
}

/// The line on the tickets of a snapshot.
pub open spec fn data_line(date: Seq<char>, crm: JsonV) -> Seq<char> {
    "data:   crm.json in snapshot "@ + date + " ("@ + dec(tickets_in(crm).len()) + " ticket(s)"@
        + range_text(ticket_times(crm)) + ")"@
}

pub fn data_line_for(date: &str, crm: &Json) -> (r: String)
    ensures
        r@ == data_line(date@, crm@),
{
    let tickets = for_each_ticket(crm);
    let ghost times = ticket_times(crm@);
    let ghost timed = timed_view(tickets@);
    assert(timed.len() == tickets@.len());
    let mut some: bool = false;
    let mut low: i64 = 0;
    let mut high: i64 = 0;
    let mut i: usize = 0;
    assert(times.take(0) =~= Seq::empty());
    while i < tickets.len()
        invariant
            i <= tickets@.len(),
            times == ticket_times(crm@),
            timed_view(tickets@) == tickets_in(crm@).map_values(
                |t: JsonV| (t, delivery_or_min(t)),
            ),
            tickets@.len() == times.len(),
            some == (real_times(times.take(i as int)).len() > 0),
            some ==> low == least(real_times(times.take(i as int))) && high == greatest(
                real_times(times.take(i as int)),
            ),
        decreases tickets.len() - i,
    {
        assert(times.take(i + 1).drop_last() =~= times.take(i as int));
        assert(timed_view(tickets@)[i as int] == (tickets@[i as int].0@, tickets@[i as int].1));
        assert(times[i as int] == tickets@[i as int].1);
        let e: i64 = tickets[i].1;
        if e > i64::MIN {
            proof {
                let t = real_times(times.take(i as int));
                assert(t.push(e).drop_last() =~= t);
            }
            if !some || e < low {
                low = e;
            }
            if !some || e > high {
                high = e;
            }
            some = true;
        }
        i += 1;
    }
    assert(times.take(i as int) =~= times);
    let range = if some {
        cat4(", deliveries ", ep_date(low).as_str(), " .. ", ep_date(high).as_str())
    } else {
        String::new()
    };
    cat7(
        "data:   crm.json in snapshot ",
        date,
        " (",
        decimal_len(tickets.len()).as_str(),
        " ticket(s)",
        range.as_str(),
        ")",
    )
}

/// The command to run next, the most pressing one.
pub open spec fn next_step(
    missing: Seq<Seq<char>>,
    home: Option<Seq<char>>,
    latest: Option<Seq<char>>,
) -> Seq<char> {
    if missing.len() > 0 {
        "moneyball crm secret "@ + joined(missing, " && moneyball crm secret "@)
    } else if home is None || home != latest {
        "moneyball crm fetch   (writes crm.json into today's snapshot)"@
    } else {
        "up to date - moneyball report / brief will show the full funnel"@
    }
}

/// The lines on the data: where it is, and that it is stale where that is not the latest snapshot.
pub open spec fn data_lines(
    home: Option<Seq<char>>,
    latest: Option<Seq<char>>,
    crm: JsonV,
) -> Seq<Seq<char>> {
    match home {
        None => seq!["data:   no crm.json in any snapshot"@],
        Some(d) => if latest == Some(d) {
            seq![data_line(d, crm)]
        } else {
            seq![
                data_line(d, crm),
                "        STALE: the latest snapshot "@ + match latest {
                    Some(l) => l,
                    None => "?"@,
                } + " has no crm.json - brief/report/"@,
                "        funnel run against the latest snapshot and see ZERO CRM there."@,
            ]
        },
    }
}

/// The whole status of a workspace with a description.
pub open spec fn status_of(
    name: Seq<char>,
    missing: Seq<Seq<char>>,
    home: Option<Seq<char>>,
    latest: Option<Seq<char>>,
    crm: JsonV,
) -> Seq<Seq<char>> {
    seq![
        "spec:   crm.toml ("@ + name + ")"@,
        if missing.len() == 0 {
            "secret: stored"@
        } else {
            "secret: MISSING ("@ + joined(missing, ", "@) + ")"@
        },
    ] + data_lines(home, latest, crm) + seq!["next:   "@ + next_step(missing, home, latest)]
}

pub open spec fn no_spec_lines() -> Seq<Seq<char>> {
    seq![
        "spec:   none"@,
        "data:   (nothing without a spec)"@,
        "next:   moneyball crm connect (guided) or moneyball crm init"@,
    ]
}

/// The latest of the dates, which are in order.
pub open spec fn latest_of(dates: Seq<(Seq<char>, bool)>) -> Option<Seq<char>> {
    if dates.len() > 0 {
        Some(dates.last().0)
    } else {
        None
    }
}

fn push_line(list: &mut Vec<String>, msg: String)
    ensures
        views(final(list)@) == views(old(list)@).push(msg@),
{
    proof {
        lemma_views_push(list@, msg);
    }
    list.push(msg);
}

fn same_opt(a: &Option<String>, b: &Option<String>) -> (r: bool)
    ensures
        r == (opt_view(*a) == opt_view(*b)),
{
    match (a, b) {
        (Some(x), Some(y)) => same(x.as_str(), y.as_str()),
        (None, None) => true,
        _ => false,
    }
}

/// The status from the parts that were read: the name and the request of the description, the
/// stored secrets, the dates in order, each with whether it has tickets, and the tickets of the
/// newest that has.
pub fn status_from(
    name: &str,
    request: &Option<RequestSpec>,
    stored: &TextMap,
    dates: &Vec<(String, bool)>,
    crm: &Json,
) -> (r: Vec<String>)
    ensures
        views(r@) == status_of(
            name@,
            request_missing(crate::crm::source::opt_request(*request), stored@),
            newest_with_ads(flagged_view(dates@)),
            latest_of(flagged_view(dates@)),
            crm@,
        ),
{
    let mut out: Vec<String> = Vec::new();
    assert(views(out@) =~= Seq::empty());
    push_line(&mut out, cat3("spec:   crm.toml (", name, ")"));
    let mut missing: Vec<String> = Vec::new();
    assert(views(missing@) =~= Seq::empty());
    match request {
        Some(req) => {
            push_missing(&mut missing, &req.headers, stored);
            push_missing(&mut missing, &req.query, stored);
            assert(views(missing@) =~= missing_secrets(req@.headers, stored@) + missing_secrets(
                req@.query,
                stored@,
            ));
        },
        None => {},
    }
    let ghost want_missing = request_missing(crate::crm::source::opt_request(*request), stored@);
    assert(views(missing@) == want_missing);
    assert(views(missing@).len() == missing@.len());
    if missing.len() == 0 {
        push_line(&mut out, "secret: stored".to_owned());
    } else {
        push_line(&mut out, cat3("secret: MISSING (", join(&missing, ", ").as_str(), ")"));
    }
    let home = newest_flagged(dates);
    let ghost flagged = flagged_view(dates@);
    assert(flagged.len() == dates@.len());
    let latest: Option<String> = if dates.len() > 0 {
        assert(flagged.last() == (dates@.last().0@, dates@.last().1));
        Some(dates[dates.len() - 1].0.clone())
    } else {
        None
    };
    let ghost head = views(out@);
    match &home {
        None => {
            push_line(&mut out, "data:   no crm.json in any snapshot".to_owned());
        },
        Some(d) => {
            push_line(&mut out, data_line_for(d.as_str(), crm));
            if !same_opt(&latest, &home) {
                let shown = match &latest {
                    Some(l) => l.clone(),
                    None => "?".to_owned(),
                };
                push_line(
                    &mut out,
                    cat3(
                        "        STALE: the latest snapshot ",
                        shown.as_str(),
                        " has no crm.json - brief/report/",
                    ),
                );
                push_line(
                    &mut out,
                    "        funnel run against the latest snapshot and see ZERO CRM there.".to_owned(),
                );
            }
        },
    }
    assert(views(out@) =~= head + data_lines(opt_view(home), opt_view(latest), crm@));
    let next = if missing.len() > 0 {
        cat2("moneyball crm secret ", join(&missing, " && moneyball crm secret ").as_str())
    } else if home.is_none() || !same_opt(&home, &latest) {
        "moneyball crm fetch   (writes crm.json into today's snapshot)".to_owned()
    } else {
        "up to date - moneyball report / brief will show the full funnel".to_owned()
    };
    push_line(&mut out, cat2("next:   ", next.as_str()));
    assert(views(out@) =~= status_of(
        name@,
        want_missing,
        opt_view(home),
        opt_view(latest),
        crm@,
    ));
    out
}

/// The text read as JSON, or nothing.
pub open spec fn crm_or_null(raw: Option<Seq<char>>) -> JsonV {
    match raw {
        Some(s) => match json_parsed(s) {
            Ok(j) => j,
            Err(_) => JsonV::Null,
        },
        None => JsonV::Null,
    }
}

/// The status of a workspace: `spec` is the text of its description, `crm` that of the newest
/// tickets.
pub fn status_lines(
    spec: &Option<String>,
    stored: &TextMap,
    dates: &Vec<(String, bool)>,
    crm: &Option<String>,
) -> (r: Result<Vec<String>, Error>)
    ensures
        match opt_view(*spec) {
            None => r matches Ok(v) && views(v@) == no_spec_lines(),
            Some(raw) => match toml_parsed(raw) {
                Err(m) => r matches Err(Error::Config(t)) && t@ == "crm.toml: "@ + m,
                Ok(j) => match spec_read(j) {
                    Err(k) => r matches Err(Error::Config(t)) && t@ == bad_key_text(k),
                    Ok(s) => r matches Ok(v) && views(v@) == status_of(
                        s.name,
                        request_missing(s.request, stored@),
                        newest_with_ads(flagged_view(dates@)),
                        latest_of(flagged_view(dates@)),
                        crm_or_null(opt_view(*crm)),
                    ),
                },
            },
        },
{
    match spec {
        None => {
            let mut out: Vec<String> = Vec::new();
            push_line(&mut out, "spec:   none".to_owned());
            push_line(&mut out, "data:   (nothing without a spec)".to_owned());
            push_line(
                &mut out,
                "next:   moneyball crm connect (guided) or moneyball crm init".to_owned(),
            );
            assert(views(out@) =~= no_spec_lines());
            Ok(out)
        },
        Some(raw) => match parse(raw.as_str()) {
            Err(e) => Err(e),
            Ok(s) => {
                let j = match crm {
                    Some(t) => match Json::parse(t.as_str()) {
                        Ok(j) => j,
                        Err(_) => Json::Null,
                    },
                    None => Json::Null,
                };
                Ok(status_from(s.name.as_str(), &s.request, stored, dates, &j))
            },
        },
    }
}

} // verus!
