//! The tickets of a CRM: what they say, and whether an export of them conforms.

use crate::dates::{
    naive_epoch, naive_epoch_of, rfc3339_epoch, rfc3339_epoch_of, zoned_epoch, zoned_epoch_of,
};
use crate::json::{
    lemma_list_view, list_in, list_view, member, opt_str, pairs_view, str_or_empty, text_in,
    text_or_empty, Json, JsonV,
};
use crate::strs::{opt_view, parse_i64, parsed_int, same};
use vstd::prelude::*;

pub mod check;
pub mod connect;
pub mod fetch;
pub mod paging;
pub mod presets;
pub mod source;
pub mod status;
pub mod transform;

verus! {

// Stages

/// The stages of the funnel, in its order.
pub open spec fn canonical_stages() -> Seq<Seq<char>> {
    seq![
        "Lost"@,
        "NonContactable"@,
        "Contactable"@,
        "Visit"@,
        "Revisit"@,
        "Booking"@,
    ]
}

/// Whether a stage means that a visit took place.
pub open spec fn is_visited(stage: Seq<char>) -> bool {
    stage == "Visit"@ || stage == "Revisit"@ || stage == "Booking"@
}

/// Whether a stage means that the lead is qualified.
pub open spec fn is_qualified(stage: Seq<char>) -> bool {
    stage == "Contactable"@ || is_visited(stage)
}

/// Whether a ticket is booked: by its funnel, or by its stage.
pub open spec fn is_booked(stage: Seq<char>, funnel: Seq<char>) -> bool {
    funnel == "WON"@ || stage == "Booking"@
}

/// The milestones of a ticket: qualified, visited, booked.
pub fn milestones(stage: &str, funnel: &str) -> (r: (bool, bool, bool))
    ensures
        r == (is_qualified(stage@), is_visited(stage@), is_booked(stage@, funnel@)),
{
    let visited = same(stage, "Visit") || same(stage, "Revisit") || same(stage, "Booking");
    (
        same(stage, "Contactable") || visited,
        visited,
        same(funnel, "WON") || same(stage, "Booking"),
    )
}

/// A ticket that was visited is qualified, and one in the stage of booking has every milestone.
pub proof fn law_milestones_build_up(stage: Seq<char>, funnel: Seq<char>)
    ensures
        is_visited(stage) ==> is_qualified(stage),
        stage == "Booking"@ ==> is_qualified(stage) && is_visited(stage) && is_booked(
            stage,
            funnel,
        ),
{
}

// Fields

/// The seconds since the Unix epoch that a text denotes: a number, RFC 3339, a form whose offset may
/// stand without a colon, or one without an offset, which is taken as UTC.
pub open spec fn text_epoch(s: Seq<char>) -> Option<i64> {
    match parsed_int(s) {
        Some(i) => Some(i as i64),
        None => match rfc3339_epoch_of(s) {
            Some(e) => Some(e),
            None => match zoned_epoch_of(s, "%Y-%m-%dT%H:%M:%S%z"@) {
                Some(e) => Some(e),
                None => match zoned_epoch_of(s, "%Y-%m-%dT%H:%M:%S%.f%z"@) {
                    Some(e) => Some(e),
                    None => naive_epoch_of(s, "%Y-%m-%dT%H:%M:%S"@),
                },
            },
        },
    }
}

/// The seconds since the Unix epoch that a document denotes: a number, cut to an integer where it
/// is none, or a text.
pub open spec fn epoch_in(j: JsonV) -> Option<i64> {
    match j {
        JsonV::Number(n) => match n.signed {
            Some(i) => Some(i),
            None => Some(n.whole),
        },
        JsonV::Text(s) => text_epoch(s),
        _ => None,
    }
}

/// The time of delivery of a ticket.
pub open spec fn delivery_in(t: JsonV) -> Option<i64> {
    match member(t, "delivery"@) {
        Some(d) => epoch_in(d),
        None => None,
    }
}

/// The id of the ad that brought a ticket: `ad_id`, or `adId` in the object `adId`.
pub open spec fn ad_id_in(t: JsonV) -> Option<Seq<char>> {
    match text_in(member(t, "ad_id"@)) {
        Some(s) => Some(s),
        None => match member(t, "adId"@) {
            Some(o) => text_in(member(o, "adId"@)),
            None => None,
        },
    }
}

pub fn ticket_ad_id(t: &Json) -> (r: Option<String>)
    ensures
        opt_view(r) == ad_id_in(t@),
{
    match opt_str(t.get("ad_id")) {
        Some(s) => Some(s.to_owned()),
        None => match t.get("adId") {
            Some(o) => match opt_str(o.get("adId")) {
                Some(s) => Some(s.to_owned()),
                None => None,
            },
            None => None,
        },
    }
}

pub fn ticket_stage(t: &Json) -> (r: String)
    ensures
        r@ == text_or_empty(member(t@, "stage"@)),
{
    str_or_empty(t.get("stage"))
}

pub fn ticket_funnel(t: &Json) -> (r: String)
    ensures
        r@ == text_or_empty(member(t@, "funnel"@)),
{
    str_or_empty(t.get("funnel"))
}

fn epoch_of_text(s: &str) -> (r: Option<i64>)
    ensures
        r == text_epoch(s@),
{
    match parse_i64(s) {
        Some(i) => {
            return Some(i);
        },
        None => {},
    }
    match rfc3339_epoch(s) {
        Some(e) => {
            return Some(e);
        },
        None => {},
    }
    match zoned_epoch(s, "%Y-%m-%dT%H:%M:%S%z") {
        Some(e) => {
            return Some(e);
        },
        None => {},
    }
    match zoned_epoch(s, "%Y-%m-%dT%H:%M:%S%.f%z") {
        Some(e) => {
            return Some(e);
        },
        None => {},
    }
    naive_epoch(s, "%Y-%m-%dT%H:%M:%S")
}

/// The seconds since the Unix epoch that a document denotes.
pub fn parse_epoch(v: &Json) -> (r: Option<i64>)
    ensures
        r == epoch_in(v@),
{
    match v {
        Json::Number(n) => match n.signed {
            Some(i) => Some(i),
            None => Some(n.whole),
        },
        Json::Text(s) => epoch_of_text(s.as_str()),
        _ => None,
    }
}

pub fn delivery_epoch(t: &Json) -> (r: Option<i64>)
    ensures
        r == delivery_in(t@),
{
    match t.get("delivery") {
        Some(d) => parse_epoch(d),
        None => None,
    }
}

// Tickets

/// The elements of a list that are objects.
pub open spec fn objects_in(items: Seq<JsonV>) -> Seq<JsonV>
    decreases items.len(),
{
    if items.len() == 0 {
        Seq::empty()
    } else {
        let before = objects_in(items.drop_last());
        if items.last() is Object {
            before.push(items.last())
        } else {
            before
        }
    }
}

/// The tickets of the campaigns of a map, one campaign after the other.
pub open spec fn map_tickets(pairs: Seq<(Seq<char>, JsonV)>) -> Seq<JsonV>
    decreases pairs.len(),
{
    if pairs.len() == 0 {
        Seq::empty()
    } else {
        map_tickets(pairs.drop_last()) + match list_in(member(pairs.last().1, "tickets"@)) {
            Some(items) => objects_in(items),
            None => Seq::empty(),
        }
    }
}

/// The tickets of an export: a list of them, or a map from a campaign to an object with a list of
/// them.
pub open spec fn tickets_in(crm: JsonV) -> Seq<JsonV> {
    match crm {
        JsonV::List(items) => objects_in(items),
        JsonV::Object(pairs) => map_tickets(pairs),
        _ => Seq::empty(),
    }
}

/// Whether an export holds nothing at all.
pub open spec fn holds_nothing(crm: JsonV) -> bool {
    match crm {
        JsonV::List(items) => items.len() == 0,
        JsonV::Object(pairs) => pairs.len() == 0,
        _ => true,
    }
}

pub fn is_empty(crm: &Json) -> (r: bool)
    ensures
        r == holds_nothing(crm@),
{
    match crm {
        Json::List(items) => items.len() == 0,
        Json::Object(pairs) => pairs.len() == 0,
        _ => true,
    }
}

/// The time of delivery of a ticket, or the least `i64` where it has none.
pub open spec fn delivery_or_min(t: JsonV) -> i64 {
    match delivery_in(t) {
        Some(e) => e,
        None => i64::MIN,
    }
}

pub open spec fn refs_view(v: Seq<&Json>) -> Seq<JsonV> {
    v.map_values(|j: &Json| j@)
}

pub(crate) fn is_object(j: &Json) -> (r: bool)
    ensures
        r == (j@ is Object),
{
    match j {
        Json::Object(_) => true,
        _ => false,
    }
}

fn push_objects<'a>(out: &mut Vec<&'a Json>, items: &'a Vec<Json>)
    ensures
        refs_view(final(out)@) == refs_view(old(out)@) + objects_in(list_view(items@)),
{
    let ghost all = list_view(items@);
    let ghost before = refs_view(out@);
    let mut i: usize = 0;
    assert(all.take(0) =~= Seq::empty());
    assert(before + objects_in(all.take(0)) =~= before);
    while i < items.len()
        invariant
            i <= items@.len(),
            all == list_view(items@),
            refs_view(out@) == before + objects_in(all.take(i as int)),
        decreases items.len() - i,
    {
        assert(all.take(i + 1).drop_last() =~= all.take(i as int));
        assert(all[i as int] == items@[i as int]@);
        let t = &items[i];
        if is_object(t) {
            assert(refs_view(out@.push(t)) =~= refs_view(out@).push(t@));
            assert((before + objects_in(all.take(i as int))).push(t@) =~= before + objects_in(
                all.take(i + 1),
            ));
            out.push(t);
        }
        i += 1;
    }
    assert(all.take(i as int) =~= all);
}

pub(crate) fn tickets_of<'a>(crm: &'a Json) -> (r: Vec<&'a Json>)
    ensures
        refs_view(r@) == tickets_in(crm@),
{
    let mut out: Vec<&'a Json> = Vec::new();
    assert(refs_view(out@) =~= Seq::empty());
    proof {
        lemma_list_view(*crm);
    }
    match crm {
        Json::List(items) => {
            push_objects(&mut out, items);
            assert(refs_view(out@) =~= objects_in(list_view(items@)));
        },
        Json::Object(pairs) => {
            let ghost all = pairs_view(pairs@);
            let mut i: usize = 0;
            assert(all.take(0) =~= Seq::empty());
            while i < pairs.len()
                invariant
                    i <= pairs@.len(),
                    all == pairs_view(pairs@),
                    refs_view(out@) == map_tickets(all.take(i as int)),
                decreases pairs.len() - i,
            {
                assert(all.take(i + 1).drop_last() =~= all.take(i as int));
                assert(all[i as int] == (pairs@[i as int].0@, pairs@[i as int].1@));
                let ghost before = refs_view(out@);
                match pairs[i].1.get("tickets") {
                    Some(l) => match l.as_array() {
                        Some(items) => {
                            push_objects(&mut out, items);
                        },
                        None => {
                            assert(before + Seq::<JsonV>::empty() =~= before);
                        },
                    },
                    None => {
                        assert(before + Seq::<JsonV>::empty() =~= before);
                    },
                }
                i += 1;
            }
            assert(all.take(i as int) =~= all);
        },
        _ => {},
    }
    out
}

pub open spec fn timed_view(v: Seq<(&Json, i64)>) -> Seq<(JsonV, i64)> {
    v.map_values(|p: (&Json, i64)| (p.0@, p.1))
}

/// The tickets of an export, each with its time of delivery, or the least `i64` where it has none.
pub fn for_each_ticket<'a>(crm: &'a Json) -> (r: Vec<(&'a Json, i64)>)
    ensures
        timed_view(r@) == tickets_in(crm@).map_values(|t: JsonV| (t, delivery_or_min(t))),
{
    let tickets = tickets_of(crm);
    let ghost want = tickets_in(crm@).map_values(|t: JsonV| (t, delivery_or_min(t)));
    let mut out: Vec<(&'a Json, i64)> = Vec::new();
    let mut i: usize = 0;
    assert(timed_view(out@) =~= want.take(0));
    while i < tickets.len()
        invariant
            i <= tickets@.len(),
            refs_view(tickets@) == tickets_in(crm@),
            want == tickets_in(crm@).map_values(|t: JsonV| (t, delivery_or_min(t))),
            timed_view(out@) == want.take(i as int),
        decreases tickets.len() - i,
    {
        let t = tickets[i];
        assert(refs_view(tickets@)[i as int] == t@);
        let e: i64 = match delivery_epoch(t) {
            Some(e) => e,
            None => i64::MIN,
        };
        let p = (t, e);
        assert(timed_view(out@.push(p)) =~= timed_view(out@).push((t@, e)));
        assert(want.take(i + 1) =~= want.take(i as int).push((t@, e)));
        out.push(p);
        i += 1;
    }
    assert(refs_view(tickets@).len() == tickets@.len());
    assert(want.take(i as int) =~= want);
    out
}

} // verus!
