//! Tickets of the records that came from an ad, and contacts of those that did not.

use crate::crm::source::{
    get_path, path_in, push_pair, push_tail, scalar_string, scalar_text, ticket_tail, MapSpec,
    MapSpecV,
};
use crate::json::{lemma_list_push, list_view, pairs_view, Json, JsonV};
use crate::schema::{contacts_view, ContactRow, ContactRowV};
use crate::strs::{opt_view, trim, trimmed};
use vstd::prelude::*;

pub mod laws;

verus! {

/// The id of the ad of a record, as a text; empty where the record has none, or a null for one.
pub open spec fn record_ad(rec: JsonV, map: MapSpecV) -> Seq<char> {
    match path_in(rec, map.ad_id) {
        Some(JsonV::Null) => Seq::empty(),
        Some(v) => scalar_text(v),
        None => Seq::empty(),
    }
}

/// Whether a record came without an ad.
pub open spec fn is_organic(rec: JsonV, map: MapSpecV) -> bool {
    trimmed(record_ad(rec, map)).len() == 0
}

/// An optional member: the text at a path, where there is a path and the text is not empty.
pub open spec fn picked(rec: JsonV, path: Seq<char>) -> Option<Seq<char>> {
    if path.len() == 0 {
        None
    } else {
        match path_in(rec, path) {
            Some(v) => if scalar_text(v).len() > 0 {
                Some(scalar_text(v))
            } else {
                None
            },
            None => None,
        }
    }
}

pub open spec fn picked_pair(key: Seq<char>, o: Option<Seq<char>>) -> Seq<(Seq<char>, JsonV)> {
    match o {
        Some(s) => seq![(key, JsonV::Text(s))],
        None => Seq::empty(),
    }
}

/// The ticket of a record that came from an ad.
pub open spec fn full_ticket(rec: JsonV, map: MapSpecV) -> JsonV {
    JsonV::Object(
        seq![("ad_id"@, JsonV::Text(record_ad(rec, map)))] + ticket_tail(rec, map) + picked_pair(
            "lead_id"@,
            picked(rec, map.lead_id),
        ) + picked_pair("phone"@, picked(rec, map.phone)) + picked_pair(
            "email"@,
            picked(rec, map.email),
        ),
    )
}

/// The tickets of the records that came from an ad.
pub open spec fn ad_tickets(records: Seq<JsonV>, map: MapSpecV) -> Seq<JsonV>
    decreases records.len(),
{
    if records.len() == 0 {
        Seq::empty()
    } else {
        let before = ad_tickets(records.drop_last(), map);
        if is_organic(records.last(), map) {
            before
        } else {
            before.push(full_ticket(records.last(), map))
        }
    }
}

/// The contact of a record.
pub open spec fn contact_of(rec: JsonV, map: MapSpecV) -> ContactRowV {
    ContactRowV { phone: picked(rec, map.phone), email: picked(rec, map.email) }
}

/// The contacts of the records that came without an ad, as far as they have one.
pub open spec fn organic_of(records: Seq<JsonV>, map: MapSpecV) -> Seq<ContactRowV>
    decreases records.len(),
{
    if records.len() == 0 {
        Seq::empty()
    } else {
        let before = organic_of(records.drop_last(), map);
        let c = contact_of(records.last(), map);
        if is_organic(records.last(), map) && (c.phone is Some || c.email is Some) {
            before.push(c)
        } else {
            before
        }
    }
}

fn ad_of(rec: &Json, map: &MapSpec) -> (r: String)
    ensures
        r@ == record_ad(rec@, map@),
{
    match get_path(rec, map.ad_id.as_str()) {
        Some(v) => if v.is_null() {
            String::new()
        } else {
            scalar_string(v)
        },
        None => String::new(),
    }
}

fn pick(rec: &Json, path: &str) -> (r: Option<String>)
    ensures
        opt_view(r) == picked(rec@, path@),
{
    if path.is_empty() {
        return None;
    }
    match get_path(rec, path) {
        Some(v) => {
            let s = scalar_string(v);
            if s.as_str().is_empty() {
                None
            } else {
                Some(s)
            }
        },
        None => None,
    }
}

fn push_picked(v: &mut Vec<(String, Json)>, key: &str, o: Option<String>)
    ensures
        pairs_view(final(v)@) == pairs_view(old(v)@) + picked_pair(key@, opt_view(o)),
{
    let ghost start = pairs_view(v@);
    match o {
        Some(s) => {
            push_pair(v, key, Json::Text(s));
            assert(pairs_view(v@) =~= start + picked_pair(key@, opt_view(o)));
        },
        None => {
            assert(pairs_view(v@) =~= start + picked_pair(key@, opt_view(o)));
        },
    }
}

/// The tickets of the records that came from an ad, and how many came without.
pub fn transform(records: &Vec<Json>, map: &MapSpec) -> (r: (Vec<Json>, usize))
    ensures
        list_view(r.0@) == ad_tickets(list_view(records@), map@),
        r.0@.len() + r.1 == records@.len(),
{
    let ghost all = list_view(records@);
    let mut out: Vec<Json> = Vec::new();
    let mut dropped: usize = 0;
    let mut i: usize = 0;
    assert(list_view(out@) =~= Seq::empty());
    assert(all.take(0) =~= Seq::empty());
    while i < records.len()
        invariant
            i <= records@.len(),
            all == list_view(records@),
            out@.len() + dropped == i,
            list_view(out@) == ad_tickets(all.take(i as int), map@),
        decreases records.len() - i,
    {
        assert(all.take(i + 1).drop_last() =~= all.take(i as int));
        assert(all[i as int] == records@[i as int]@);
        let rec = &records[i];
        let ad_id = ad_of(rec, map);
        if trim(ad_id.as_str()).as_str().is_empty() {
            dropped += 1;
        } else {
            let mut t: Vec<(String, Json)> = Vec::new();
            push_pair(&mut t, "ad_id", Json::Text(ad_id));
            assert(pairs_view(t@) =~= seq![("ad_id"@, JsonV::Text(record_ad(rec@, map@)))]);
            push_tail(&mut t, rec, map);
            push_picked(&mut t, "lead_id", pick(rec, map.lead_id.as_str()));
            push_picked(&mut t, "phone", pick(rec, map.phone.as_str()));
            push_picked(&mut t, "email", pick(rec, map.email.as_str()));
            let ticket = crate::json::object(t);
            proof {
                lemma_list_push(out@, ticket);
            }
            out.push(ticket);
        }
        i += 1;
    }
    assert(all.take(i as int) =~= all);
    (out, dropped)
}

/// The contacts of the records that came without an ad.
pub fn organic_contacts(records: &Vec<Json>, map: &MapSpec) -> (r: Vec<ContactRow>)
    ensures
        contacts_view(r@) == organic_of(list_view(records@), map@),
{
    let ghost all = list_view(records@);
    let mut out: Vec<ContactRow> = Vec::new();
    let mut i: usize = 0;
    assert(contacts_view(out@) =~= Seq::empty());
    assert(all.take(0) =~= Seq::empty());
    while i < records.len()
        invariant
            i <= records@.len(),
            all == list_view(records@),
            contacts_view(out@) == organic_of(all.take(i as int), map@),
        decreases records.len() - i,
    {
        assert(all.take(i + 1).drop_last() =~= all.take(i as int));
        assert(all[i as int] == records@[i as int]@);
        let rec = &records[i];
        if trim(ad_of(rec, map).as_str()).as_str().is_empty() {
            let phone = pick(rec, map.phone.as_str());
            let email = pick(rec, map.email.as_str());
            if phone.is_some() || email.is_some() {
                let c = ContactRow { phone, email };
                assert(contacts_view(out@.push(c)) =~= contacts_view(out@).push(c@));
                out.push(c);
            }
        }
        i += 1;
    }
    assert(all.take(i as int) =~= all);
    out
}

/// No record gives both a ticket and a contact: there are at most as many of both together as
/// there are records.
pub proof fn law_records_split_into_tickets_and_contacts(records: Seq<JsonV>, map: MapSpecV)
    ensures
        ad_tickets(records, map).len() + organic_of(records, map).len() <= records.len(),
    decreases records.len(),
{
    if records.len() > 0 {
        law_records_split_into_tickets_and_contacts(records.drop_last(), map);
    }
}

/// Every ticket carries the id of an ad that is more than white space.
pub proof fn law_every_ticket_has_an_ad(records: Seq<JsonV>, map: MapSpecV)
    ensures
        forall|i: int|
            0 <= i < ad_tickets(records, map).len() ==> !crate::crm::check::lacks_ad(
                #[trigger] ad_tickets(records, map)[i],
            ),
    decreases records.len(),
{
    if records.len() > 0 {
        law_every_ticket_has_an_ad(records.drop_last(), map);
        let before = ad_tickets(records.drop_last(), map);
        let now = ad_tickets(records, map);
        assert forall|i: int| 0 <= i < now.len() implies !crate::crm::check::lacks_ad(
            #[trigger] now[i],
        ) by {
            if i < before.len() {
                assert(now[i] == before[i]);
            } else {
                let t = full_ticket(records.last(), map);
                assert(now[i] == t);
                assert(t->Object_0[0] == (
                    "ad_id"@,
                    JsonV::Text(record_ad(records.last(), map)),
                ));
                assert(crate::json::member(t, "ad_id"@) == Some(
                    JsonV::Text(record_ad(records.last(), map)),
                ));
            }
        }
    }
}

} // verus!
