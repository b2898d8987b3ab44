//! What the tickets and contacts of an export show of its records.

use crate::crm::source::{mapped_stage, path_in, scalar_text, ticket_of, MapSpecV};
use crate::crm::transform::{ad_tickets, full_ticket, is_organic, organic_of};
use crate::json::{find_key, lemma_find_key_joined, member, JsonV};
use crate::provider::lookup;
use crate::strs::trimmed;
use vstd::prelude::*;

verus! {

/// Whether a member is the text at a path of a record. It is missing just where there is no path,
/// nothing at its end, or no characters there.
pub open spec fn is_text_at(m: Option<JsonV>, rec: JsonV, path: Seq<char>) -> bool {
    match m {
        Some(t) => path.len() > 0 && (path_in(rec, path) matches Some(v) && scalar_text(v).len() > 0
            && t == JsonV::Text(scalar_text(v))),
        None => path.len() > 0 ==> (path_in(rec, path) matches Some(v) ==> scalar_text(v).len()
            == 0),
    }
}

/// Whether a record names an ad: something other than a null, and more than white space.
pub open spec fn names_ad(rec: JsonV, map: MapSpecV) -> bool {
    path_in(rec, map.ad_id) matches Some(v) && v != JsonV::Null && trimmed(scalar_text(v)).len() > 0
}

proof fn lemma_keys_differ()
    ensures
        "ad_id"@.len() == 5 && "ad_id"@[0] == 'a',
        "stage"@.len() == 5 && "stage"@[0] == 's',
        "delivery"@.len() == 8,
        "funnel"@.len() == 6,
        "lead_id"@.len() == 7,
        "phone"@.len() == 5 && "phone"@[0] == 'p',
        "email"@.len() == 5 && "email"@[0] == 'e',
{
    reveal_strlit("ad_id");
    reveal_strlit("stage");
    reveal_strlit("delivery");
    reveal_strlit("funnel");
    reveal_strlit("lead_id");
    reveal_strlit("phone");
    reveal_strlit("email");
}

proof fn lemma_organic(rec: JsonV, map: MapSpecV)
    ensures
        is_organic(rec, map) <==> !names_ad(rec, map),
{
    assert(trimmed(Seq::<char>::empty()).len() == 0);
}

proof fn lemma_full_ticket(rec: JsonV, map: MapSpecV)
    requires
        names_ad(rec, map),
    ensures
        ({
            let t = full_ticket(rec, map);
            &&& member(t, "ad_id"@) == Some(JsonV::Text(scalar_text(path_in(rec, map.ad_id)->0)))
            &&& is_text_at(member(t, "lead_id"@), rec, map.lead_id)
            &&& is_text_at(member(t, "phone"@), rec, map.phone)
            &&& is_text_at(member(t, "email"@), rec, map.email)
            &&& shows_tail(t, rec, map)
        }),
{
    lemma_keys_differ();
    let a = seq![("ad_id"@, JsonV::Text(crate::crm::transform::record_ad(rec, map)))];
    let tail = crate::crm::source::ticket_tail(rec, map);
    let l = crate::crm::transform::picked_pair(
        "lead_id"@,
        crate::crm::transform::picked(rec, map.lead_id),
    );
    let p = crate::crm::transform::picked_pair(
        "phone"@,
        crate::crm::transform::picked(rec, map.phone),
    );
    let e = crate::crm::transform::picked_pair(
        "email"@,
        crate::crm::transform::picked(rec, map.email),
    );
    assert forall|key: Seq<char>| #[trigger]
        member(full_ticket(rec, map), key) == first_of(
            find_key(a, key),
            first_of(
                find_key(tail, key),
                first_of(find_key(l, key), first_of(find_key(p, key), find_key(e, key))),
            ),
        ) by {
        lemma_find_key_joined(a + tail + l + p, e, key);
        lemma_find_key_joined(a + tail + l, p, key);
        lemma_find_key_joined(a + tail, l, key);
        lemma_find_key_joined(a, tail, key);
    }
    lemma_tail(rec, map);
    reveal_with_fuel(find_key, 2);
}

spec fn first_of(a: Option<JsonV>, b: Option<JsonV>) -> Option<JsonV> {
    match a {
        Some(v) => Some(v),
        None => b,
    }
}

/// Whether a ticket shows stage, delivery and funnel of a record: the stage as the map has it and
/// else as it is, the delivery as it is, and the funnel as a text where there is a path for it.
pub open spec fn shows_tail(t: JsonV, rec: JsonV, map: MapSpecV) -> bool {
    &&& match path_in(rec, map.stage) {
        Some(v) => match lookup(map.stage_map, scalar_text(v)) {
            Some(s) => member(t, "stage"@) == Some(JsonV::Text(s)),
            None => member(t, "stage"@) == Some(JsonV::Text(scalar_text(v))),
        },
        None => member(t, "stage"@) is None,
    }
    &&& member(t, "delivery"@) == path_in(rec, map.delivery)
    &&& match path_in(rec, map.funnel) {
        Some(v) => if map.funnel.len() > 0 {
            member(t, "funnel"@) == Some(JsonV::Text(scalar_text(v)))
        } else {
            member(t, "funnel"@) is None
        },
        None => member(t, "funnel"@) is None,
    }
}

proof fn lemma_tail(rec: JsonV, map: MapSpecV)
    ensures
        shows_tail(JsonV::Object(crate::crm::source::ticket_tail(rec, map)), rec, map),
        forall|key: Seq<char>|
            key != "stage"@ && key != "delivery"@ && key != "funnel"@ ==> #[trigger] find_key(
                crate::crm::source::ticket_tail(rec, map),
                key,
            ) is None,
{
    lemma_keys_differ();
    let tail = crate::crm::source::ticket_tail(rec, map);
    let s = match path_in(rec, map.stage) {
        Some(v) => seq![
            ("stage"@, JsonV::Text(mapped_stage(scalar_text(v), map.stage_map))),
        ],
        None => Seq::empty(),
    };
    let d = match path_in(rec, map.delivery) {
        Some(v) => seq![("delivery"@, v)],
        None => Seq::empty(),
    };
    let f = if map.funnel.len() > 0 {
        crate::crm::source::text_pair("funnel"@, path_in(rec, map.funnel))
    } else {
        Seq::empty()
    };
    assert(tail == s + d + f);
    reveal_with_fuel(find_key, 2);
    assert forall|key: Seq<char>| #[trigger] find_key(tail, key) == first_of(
        find_key(s, key),
        first_of(find_key(d, key), find_key(f, key)),
    ) by {
        lemma_find_key_joined(s + d, f, key);
        lemma_find_key_joined(s, d, key);
    }
}

/// Just the records that name an ad give a ticket, in their order. A ticket names the ad as a text,
/// shows stage, delivery and funnel of its record, and has for `lead_id`, `phone` and `email` the
/// texts at the paths that are given for them.
pub proof fn law_tickets_show_their_records(records: Seq<JsonV>, map: MapSpecV)
    ensures
        ({
            let kept = records.filter(|r: JsonV| names_ad(r, map));
            let tickets = ad_tickets(records, map);
            &&& tickets.len() == kept.len()
            &&& forall|k: int|
                0 <= k < tickets.len() ==> {
                    let t = #[trigger] tickets[k];
                    let rec = kept[k];
                    &&& path_in(rec, map.ad_id) matches Some(v) && member(t, "ad_id"@) == Some(
                        JsonV::Text(scalar_text(v)),
                    )
                    &&& is_text_at(member(t, "lead_id"@), rec, map.lead_id)
                    &&& is_text_at(member(t, "phone"@), rec, map.phone)
                    &&& is_text_at(member(t, "email"@), rec, map.email)
                    &&& shows_tail(t, rec, map)
                }
        }),
    decreases records.len(),
{
    reveal(Seq::filter);
    if records.len() > 0 {
        law_tickets_show_their_records(records.drop_last(), map);
        lemma_organic(records.last(), map);
        if names_ad(records.last(), map) {
            lemma_full_ticket(records.last(), map);
        }
    }
}

/// Whether something at a path of a record is a text of one character or more.
pub open spec fn has_text_at(rec: JsonV, path: Seq<char>) -> bool {
    path.len() > 0 && (path_in(rec, path) matches Some(v) && scalar_text(v).len() > 0)
}

/// Just the records that name no ad and have a phone or a mail address give a contact, in their
/// order, with the texts at the two paths.
pub proof fn law_contacts_show_their_records(records: Seq<JsonV>, map: MapSpecV)
    ensures
        ({
            let kept = records.filter(
                |r: JsonV|
                    !names_ad(r, map) && (has_text_at(r, map.phone) || has_text_at(r, map.email)),
            );
            let contacts = organic_of(records, map);
            &&& contacts.len() == kept.len()
            &&& forall|k: int|
                0 <= k < contacts.len() ==> {
                    let c = #[trigger] contacts[k];
                    let rec = kept[k];
                    &&& c.phone is Some <==> has_text_at(rec, map.phone)
                    &&& c.phone matches Some(s) ==> s == scalar_text(path_in(rec, map.phone)->0)
                    &&& c.email is Some <==> has_text_at(rec, map.email)
                    &&& c.email matches Some(s) ==> s == scalar_text(path_in(rec, map.email)->0)
                }
        }),
    decreases records.len(),
{
    reveal(Seq::filter);
    if records.len() > 0 {
        law_contacts_show_their_records(records.drop_last(), map);
        lemma_organic(records.last(), map);
    }
}

/// A ticket of the raw shape shows its record as well: the ad as a text where the record has
/// something there, and stage, delivery and funnel as those of an ad do.
pub proof fn law_plain_ticket_shows_its_record(rec: JsonV, map: MapSpecV)
    ensures
        member(ticket_of(rec, map), "ad_id"@) == match path_in(rec, map.ad_id) {
            Some(v) => Some(JsonV::Text(scalar_text(v))),
            None => None,
        },
        shows_tail(ticket_of(rec, map), rec, map),
{
    lemma_keys_differ();
    lemma_tail(rec, map);
    reveal_with_fuel(find_key, 2);
    let a = crate::crm::source::text_pair("ad_id"@, path_in(rec, map.ad_id));
    let tail = crate::crm::source::ticket_tail(rec, map);
    assert forall|key: Seq<char>| #[trigger]
        member(ticket_of(rec, map), key) == first_of(find_key(a, key), find_key(tail, key)) by {
        lemma_find_key_joined(a, tail, key);
    }
}

} // verus!
