//! What became of a lead, told by the tickets, the contacts and the leads themselves.

use crate::crm::ad_id_in;
use crate::json::{member, text_in, JsonV};
use crate::report::segmentation::{
    by_time, campaign_of, contact_known, count_kind, count_leads, day_in, digits_of, everyone,
    has_lead, has_mail, has_mail_in, has_phone, has_phone_in, is_mobile, is_split, kinds_of,
    law_kinds_add_up, leads_between, mail_in, mail_of, mobile_in, phone_of, seen_mail, seen_phone,
    ticket_known, LeadKind,
};
use crate::schema::{ContactRowV, LeadRowV, Segmentation};
use crate::sets::{law_text_order, order_with, text_order};
use crate::snapshot::AdsDailyRowV;
use crate::strs::{is_digit, text_lt};
use crate::text::{byte_len, cut, law_cut_is_longest_fitting_prefix, lemma_byte_len_grows};
use crate::window::WindowV;
use vstd::prelude::*;

verus! {

// Persons

/// Whether two phones are given, and are one mobile number.
pub open spec fn same_phone(a: Option<Seq<char>>, b: Option<Seq<char>>) -> bool {
    a matches Some(x) && b matches Some(y) && is_mobile(phone_of(x)) && phone_of(x) == phone_of(y)
}

/// Whether two mail addresses are given, and are one that is not empty.
pub open spec fn same_mail(a: Option<Seq<char>>, b: Option<Seq<char>>) -> bool {
    a matches Some(x) && b matches Some(y) && mail_of(x).len() > 0 && mail_of(x) == mail_of(y)
}

/// Whether a ticket is of the person of a lead.
pub open spec fn ticket_is_of(t: JsonV, l: LeadRowV) -> bool {
    same_phone(text_in(member(t, "phone"@)), l.phone) || same_mail(
        text_in(member(t, "email"@)),
        l.email,
    )
}

/// Whether a contact is of the person of a lead.
pub open spec fn contact_is_of(c: ContactRowV, l: LeadRowV) -> bool {
    same_phone(c.phone, l.phone) || same_mail(c.email, l.email)
}

/// Whether two leads are of one person.
pub open spec fn leads_are_of_one(a: LeadRowV, b: LeadRowV) -> bool {
    same_phone(a.phone, b.phone) || same_mail(a.email, b.email)
}

/// Whether the ad of a ticket and that of a lead are of one campaign.
pub open spec fn of_one_campaign(t: JsonV, l: LeadRowV, rows: Seq<AdsDailyRowV>) -> bool {
    campaign_of(
        rows,
        match ad_id_in(t) {
            Some(a) => a,
            None => Seq::empty(),
        },
    ) == campaign_of(rows, l.ad_id)
}

/// Whether a ticket is that of a lead: it has the id of the lead, which is not empty, and is of the
/// campaign of its ad.
pub open spec fn ticket_captures(t: JsonV, l: LeadRowV, rows: Seq<AdsDailyRowV>) -> bool {
    l.lead_id.len() > 0 && member(t, "lead_id"@) == Some(JsonV::Text(l.lead_id))
        && of_one_campaign(t, l, rows)
}

/// Whether a lead has the number of a mobile phone.
pub open spec fn has_mobile(l: LeadRowV) -> bool {
    l.phone matches Some(p) && is_mobile(phone_of(p))
}

proof fn lemma_everyone(
    tickets: Seq<JsonV>,
    contacts: Seq<ContactRowV>,
    rows: Seq<AdsDailyRowV>,
)
    ensures
        ({
            let known = everyone(tickets, contacts, rows);
            &&& known.len() == tickets.len() + contacts.len()
            &&& forall|k: int|
                0 <= k < tickets.len() ==> #[trigger] known[k] == ticket_known(tickets[k], rows)
            &&& forall|k: int|
                0 <= k < contacts.len() ==> known[tickets.len() + k] == contact_known(
                    #[trigger] contacts[k],
                )
            &&& forall|k: int|
                tickets.len() <= k < known.len() ==> #[trigger] known[k] == contact_known(
                    contacts[k - tickets.len()],
                )
        }),
{
}

proof fn lemma_captured(
    l: LeadRowV,
    tickets: Seq<JsonV>,
    contacts: Seq<ContactRowV>,
    rows: Seq<AdsDailyRowV>,
)
    ensures
        (l.lead_id.len() > 0 && has_lead(
            everyone(tickets, contacts, rows),
            campaign_of(rows, l.ad_id),
            l.lead_id,
        )) <==> exists|k: int|
            0 <= k < tickets.len() && ticket_captures(#[trigger] tickets[k], l, rows),
{
    let known = everyone(tickets, contacts, rows);
    let campaign = campaign_of(rows, l.ad_id);
    lemma_everyone(tickets, contacts, rows);
    if l.lead_id.len() > 0 && has_lead(known, campaign, l.lead_id) {
        let k = choose|k: int|
            0 <= k < known.len() && (#[trigger] known[k]).campaign == Some(campaign)
                && known[k].lead_id == Some(l.lead_id);
        assert(k < tickets.len());
        assert(ticket_captures(tickets[k], l, rows));
    }
    if exists|k: int| 0 <= k < tickets.len() && ticket_captures(#[trigger] tickets[k], l, rows) {
        let k = choose|k: int|
            0 <= k < tickets.len() && ticket_captures(#[trigger] tickets[k], l, rows);
        assert(known[k].campaign == Some(campaign));
    }
}

proof fn lemma_in_campaign(
    l: LeadRowV,
    tickets: Seq<JsonV>,
    contacts: Seq<ContactRowV>,
    rows: Seq<AdsDailyRowV>,
)
    requires
        has_mobile(l),
    ensures
        ({
            let known = everyone(tickets, contacts, rows);
            let campaign = campaign_of(rows, l.ad_id);
            (has_phone_in(known, campaign, mobile_in(l.phone)->0) || (mail_in(l.email) matches Some(
                e,
            ) && has_mail_in(known, campaign, e))) <==> exists|k: int|
                0 <= k < tickets.len() && of_one_campaign(#[trigger] tickets[k], l, rows)
                    && ticket_is_of(tickets[k], l)
        }),
{
    let known = everyone(tickets, contacts, rows);
    let campaign = campaign_of(rows, l.ad_id);
    let p = mobile_in(l.phone)->0;
    lemma_everyone(tickets, contacts, rows);
    if has_phone_in(known, campaign, p) {
        let k = choose|k: int|
            0 <= k < known.len() && (#[trigger] known[k]).campaign == Some(campaign)
                && known[k].phone == Some(p);
        assert(k < tickets.len());
        assert(of_one_campaign(tickets[k], l, rows) && ticket_is_of(tickets[k], l));
    }
    if mail_in(l.email) is Some && has_mail_in(known, campaign, mail_in(l.email)->0) {
        let k = choose|k: int|
            0 <= k < known.len() && (#[trigger] known[k]).campaign == Some(campaign)
                && known[k].mail == mail_in(l.email);
        assert(k < tickets.len());
        assert(of_one_campaign(tickets[k], l, rows) && ticket_is_of(tickets[k], l));
    }
    if exists|k: int|
        0 <= k < tickets.len() && of_one_campaign(#[trigger] tickets[k], l, rows) && ticket_is_of(
            tickets[k],
            l,
        ) {
        let k = choose|k: int|
            0 <= k < tickets.len() && of_one_campaign(#[trigger] tickets[k], l, rows)
                && ticket_is_of(tickets[k], l);
        assert(known[k].campaign == Some(campaign));
    }
}

proof fn lemma_anywhere(
    l: LeadRowV,
    tickets: Seq<JsonV>,
    contacts: Seq<ContactRowV>,
    rows: Seq<AdsDailyRowV>,
)
    requires
        has_mobile(l),
    ensures
        ({
            let known = everyone(tickets, contacts, rows);
            (has_phone(known, mobile_in(l.phone)->0) || (mail_in(l.email) matches Some(e)
                && has_mail(known, e))) <==> (exists|k: int|
                0 <= k < tickets.len() && ticket_is_of(#[trigger] tickets[k], l)) || (exists|
                k: int,
            |
                0 <= k < contacts.len() && contact_is_of(#[trigger] contacts[k], l))
        }),
{
    let known = everyone(tickets, contacts, rows);
    let p = mobile_in(l.phone)->0;
    let n = tickets.len() as int;
    lemma_everyone(tickets, contacts, rows);
    if has_phone(known, p) {
        let k = choose|k: int| 0 <= k < known.len() && (#[trigger] known[k]).phone == Some(p);
        if k < n {
            assert(ticket_is_of(tickets[k], l));
        } else {
            assert(contact_is_of(contacts[k - n], l));
        }
    }
    if mail_in(l.email) is Some && has_mail(known, mail_in(l.email)->0) {
        let k = choose|k: int|
            0 <= k < known.len() && (#[trigger] known[k]).mail == mail_in(l.email);
        if k < n {
            assert(ticket_is_of(tickets[k], l));
        } else {
            assert(contact_is_of(contacts[k - n], l));
        }
    }
    if exists|k: int| 0 <= k < tickets.len() && ticket_is_of(#[trigger] tickets[k], l) {
        let k = choose|k: int| 0 <= k < tickets.len() && ticket_is_of(#[trigger] tickets[k], l);
        assert(known[k] == ticket_known(tickets[k], rows));
    }
    if exists|k: int| 0 <= k < contacts.len() && contact_is_of(#[trigger] contacts[k], l) {
        let k = choose|k: int| 0 <= k < contacts.len() && contact_is_of(#[trigger] contacts[k], l);
        assert(known[n + k] == contact_known(contacts[k]));
    }
}

proof fn lemma_seen(l: LeadRowV, earlier: Seq<LeadRowV>)
    requires
        has_mobile(l),
    ensures
        (seen_phone(earlier, mobile_in(l.phone)->0) || (mail_in(l.email) matches Some(e)
            && seen_mail(earlier, e))) <==> exists|k: int|
            0 <= k < earlier.len() && leads_are_of_one(#[trigger] earlier[k], l),
{
    let p = mobile_in(l.phone)->0;
    if seen_phone(earlier, p) {
        let k = choose|k: int|
            0 <= k < earlier.len() && mobile_in((#[trigger] earlier[k]).phone) == Some(p);
        assert(leads_are_of_one(earlier[k], l));
    }
    if mail_in(l.email) is Some && seen_mail(earlier, mail_in(l.email)->0) {
        let k = choose|k: int|
            0 <= k < earlier.len() && mail_in((#[trigger] earlier[k]).email) == mail_in(l.email);
        assert(leads_are_of_one(earlier[k], l));
    }
    if exists|k: int| 0 <= k < earlier.len() && leads_are_of_one(#[trigger] earlier[k], l) {
        let k = choose|k: int|
            0 <= k < earlier.len() && leads_are_of_one(#[trigger] earlier[k], l);
        assert(mobile_in(earlier[k].phone) == Some(p) || mail_in(earlier[k].email) == mail_in(
            l.email,
        ));
    }
}

// Kinds

/// A lead of the days is captured just where a ticket of the campaign of its ad has its id, which
/// is not empty.
pub proof fn law_captured_leads_have_their_ticket(
    leads: Seq<LeadRowV>,
    tickets: Seq<JsonV>,
    contacts: Seq<ContactRowV>,
    rows: Seq<AdsDailyRowV>,
    w: WindowV,
    i: int,
)
    requires
        0 <= i < by_time(leads_between(leads, w)).len(),
    ensures
        ({
            let l = by_time(leads_between(leads, w))[i];
            let v = kinds_of(leads, tickets, contacts, rows, w);
            v[i].1 == LeadKind::Captured <==> exists|k: int|
                0 <= k < tickets.len() && ticket_captures(#[trigger] tickets[k], l, rows)
        }),
{
    lemma_captured(by_time(leads_between(leads, w))[i], tickets, contacts, rows);
}

/// A lead of the days that is not captured is invalid just where it has no number of a mobile
/// phone.
pub proof fn law_invalid_leads_have_no_mobile(
    leads: Seq<LeadRowV>,
    tickets: Seq<JsonV>,
    contacts: Seq<ContactRowV>,
    rows: Seq<AdsDailyRowV>,
    w: WindowV,
    i: int,
)
    requires
        0 <= i < by_time(leads_between(leads, w)).len(),
    ensures
        ({
            let l = by_time(leads_between(leads, w))[i];
            let v = kinds_of(leads, tickets, contacts, rows, w);
            v[i].1 == LeadKind::Invalid <==> !has_mobile(l) && v[i].1 != LeadKind::Captured
        }),
{
}

/// A lead of the days that is neither captured nor invalid is a duplicate just where a ticket of
/// the campaign of its ad, or a lead that was submitted before it, is of the same person.
pub proof fn law_duplicates_were_there_before(
    leads: Seq<LeadRowV>,
    tickets: Seq<JsonV>,
    contacts: Seq<ContactRowV>,
    rows: Seq<AdsDailyRowV>,
    w: WindowV,
    i: int,
)
    requires
        0 <= i < by_time(leads_between(leads, w)).len(),
    ensures
        ({
            let s = by_time(leads_between(leads, w));
            let l = s[i];
            let v = kinds_of(leads, tickets, contacts, rows, w);
            let by_ticket = exists|k: int|
                0 <= k < tickets.len() && of_one_campaign(#[trigger] tickets[k], l, rows)
                    && ticket_is_of(tickets[k], l);
            let by_lead = exists|k: int| 0 <= k < i && leads_are_of_one(#[trigger] s[k], l);
            v[i].1 == LeadKind::Duplicate <==> v[i].1 != LeadKind::Captured && has_mobile(l) && (
            by_ticket || by_lead)
        }),
{
    let s = by_time(leads_between(leads, w));
    let l = s[i];
    if has_mobile(l) {
        lemma_in_campaign(l, tickets, contacts, rows);
        lemma_seen(l, s.take(i));
        assert(forall|k: int| 0 <= k < i ==> s.take(i)[k] == #[trigger] s[k]);
        assert(forall|k: int| 0 <= k < i ==> #[trigger] s.take(i)[k] == s[k]);
    }
}

/// A lead of the days that is neither captured, invalid nor a duplicate asks anew just where some
/// ticket or some contact is of the same person.
pub proof fn law_reinquiries_are_known(
    leads: Seq<LeadRowV>,
    tickets: Seq<JsonV>,
    contacts: Seq<ContactRowV>,
    rows: Seq<AdsDailyRowV>,
    w: WindowV,
    i: int,
)
    requires
        0 <= i < by_time(leads_between(leads, w)).len(),
    ensures
        ({
            let l = by_time(leads_between(leads, w))[i];
            let v = kinds_of(leads, tickets, contacts, rows, w);
            let by_ticket = exists|k: int|
                0 <= k < tickets.len() && ticket_is_of(#[trigger] tickets[k], l);
            let by_contact = exists|k: int|
                0 <= k < contacts.len() && contact_is_of(#[trigger] contacts[k], l);
            v[i].1 == LeadKind::Reinquiry <==> v[i].1 != LeadKind::Captured && v[i].1
                != LeadKind::Duplicate && has_mobile(l) && (by_ticket || by_contact)
        }),
{
    let l = by_time(leads_between(leads, w))[i];
    if has_mobile(l) {
        lemma_anywhere(l, tickets, contacts, rows);
    }
}

/// A lead of the days is uncaptured just where it has the number of a mobile phone, no ticket of
/// the campaign of its ad has its id, and neither a ticket nor a contact nor a lead before it is of
/// the same person.
pub proof fn law_uncaptured_leads_are_unknown(
    leads: Seq<LeadRowV>,
    tickets: Seq<JsonV>,
    contacts: Seq<ContactRowV>,
    rows: Seq<AdsDailyRowV>,
    w: WindowV,
    i: int,
)
    requires
        0 <= i < by_time(leads_between(leads, w)).len(),
    ensures
        ({
            let s = by_time(leads_between(leads, w));
            let l = s[i];
            let v = kinds_of(leads, tickets, contacts, rows, w);
            v[i].1 == LeadKind::Uncaptured <==> {
                &&& has_mobile(l)
                &&& forall|k: int|
                    0 <= k < tickets.len() ==> !ticket_captures(#[trigger] tickets[k], l, rows)
                        && !ticket_is_of(tickets[k], l)
                &&& forall|k: int|
                    0 <= k < contacts.len() ==> !contact_is_of(#[trigger] contacts[k], l)
                &&& forall|k: int| 0 <= k < i ==> !leads_are_of_one(#[trigger] s[k], l)
            }
        }),
{
    let s = by_time(leads_between(leads, w));
    let l = s[i];
    law_captured_leads_have_their_ticket(leads, tickets, contacts, rows, w, i);
    law_invalid_leads_have_no_mobile(leads, tickets, contacts, rows, w, i);
    law_duplicates_were_there_before(leads, tickets, contacts, rows, w, i);
    law_reinquiries_are_known(leads, tickets, contacts, rows, w, i);
    let v = kinds_of(leads, tickets, contacts, rows, w);
    if v[i].1 == LeadKind::Uncaptured {
        assert forall|k: int| 0 <= k < tickets.len() implies !ticket_captures(
            #[trigger] tickets[k],
            l,
            rows,
        ) && !ticket_is_of(tickets[k], l) by {}
    }
}

// The leads of the days

proof fn lemma_leads_between(leads: Seq<LeadRowV>, w: WindowV)
    ensures
        leads_between(leads, w) == leads.filter(
            |l: LeadRowV|
                !text_lt(day_in(l.created_time), w.since) && !text_lt(
                    w.until,
                    day_in(l.created_time),
                ),
        ),
    decreases leads.len(),
{
    reveal(Seq::filter);
    if leads.len() > 0 {
        lemma_leads_between(leads.drop_last(), w);
    }
}

proof fn lemma_put_in(
    order: Seq<int>,
    times: Seq<Seq<char>>,
    i: int,
    leads: Seq<LeadRowV>,
)
    ensures
        order_with(order, times, i).map_values(|k: int| leads[k]).to_multiset()
            == order.map_values(|k: int| leads[k]).to_multiset().insert(leads[i]),
    decreases order.len(),
{
    let f = |k: int| leads[k];
    let r = order_with(order, times, i);
    if order.len() == 0 || !text_lt(times[i], times[order.last()]) {
        assert(r.map_values(f) =~= order.map_values(f).push(leads[i]));
        order.map_values(f).to_multiset_ensures();
    } else {
        let rest = order.drop_last();
        lemma_put_in(rest, times, i, leads);
        let q = order_with(rest, times, i);
        assert(r.map_values(f) =~= q.map_values(f).push(leads[order.last()]));
        assert(order.map_values(f) =~= rest.map_values(f).push(leads[order.last()]));
        q.map_values(f).to_multiset_ensures();
        rest.map_values(f).to_multiset_ensures();
        assert(r.map_values(f).to_multiset() =~= order.map_values(f).to_multiset().insert(
            leads[i],
        ));
    }
}

proof fn lemma_put_in_all(leads: Seq<LeadRowV>, times: Seq<Seq<char>>, n: int)
    requires
        0 <= n <= leads.len(),
    ensures
        text_order(times, n).map_values(|k: int| leads[k]).to_multiset() == leads.take(
            n,
        ).to_multiset(),
    decreases n,
{
    let f = |k: int| leads[k];
    if n > 0 {
        lemma_put_in_all(leads, times, n - 1);
        lemma_put_in(text_order(times, n - 1), times, n - 1, leads);
        assert(leads.take(n) =~= leads.take(n - 1).push(leads[n - 1]));
        leads.take(n - 1).to_multiset_ensures();
    } else {
        assert(text_order(times, n).map_values(f) =~= leads.take(n));
    }
}

/// Every lead whose day is one of the days is sorted out once, under its ad, and no other one is.
/// They come in the order of their times.
pub proof fn law_leads_of_the_days_are_sorted_out(
    leads: Seq<LeadRowV>,
    tickets: Seq<JsonV>,
    contacts: Seq<ContactRowV>,
    rows: Seq<AdsDailyRowV>,
    w: WindowV,
)
    ensures
        ({
            let s = by_time(leads_between(leads, w));
            let v = kinds_of(leads, tickets, contacts, rows, w);
            &&& s.to_multiset() == leads.filter(
                |l: LeadRowV|
                    !text_lt(day_in(l.created_time), w.since) && !text_lt(
                        w.until,
                        day_in(l.created_time),
                    ),
            ).to_multiset()
            &&& forall|i: int, j: int|
                0 <= i < j < s.len() ==> !text_lt(
                    (#[trigger] s[j]).created_time,
                    (#[trigger] s[i]).created_time,
                )
            &&& v.len() == s.len()
            &&& forall|i: int| 0 <= i < v.len() ==> (#[trigger] v[i]).0 == s[i].ad_id
        }),
{
    let b = leads_between(leads, w);
    let times = b.map_values(|l: LeadRowV| l.created_time);
    let s = by_time(b);
    lemma_leads_between(leads, w);
    lemma_put_in_all(b, times, b.len() as int);
    assert(b.take(b.len() as int) =~= b);
    law_text_order(times, b.len() as int);
    let o = text_order(times, b.len() as int);
    assert forall|i: int, j: int| 0 <= i < j < s.len() implies !text_lt(
        (#[trigger] s[j]).created_time,
        (#[trigger] s[i]).created_time,
    ) by {
        assert(s[i] == b[o[i]] && s[j] == b[o[j]]);
        assert(!text_lt(times[o[j]], times[o[i]]));
    }
}

/// The day of a time that begins with ten plain characters is those ten.
pub proof fn law_day_is_the_first_ten(time: Seq<char>)
    requires
        time.len() >= 10,
        forall|i: int| 0 <= i < 10 ==> (#[trigger] time[i] as u32) < 0x80,
    ensures
        day_in(time) == time.take(10),
{
    lemma_plain_bytes(time, 10);
    law_cut_is_longest_fitting_prefix(time, 10);
    let n = cut(time, 10).len() as int;
    if n < 10 {
        lemma_plain_bytes(time, n + 1);
    } else if n > 10 {
        assert(time.take(n).take(11) =~= time.take(11));
        lemma_byte_len_grows(time.take(n), 11);
        assert(time.take(11).drop_last() =~= time.take(10));
    }
}

proof fn lemma_plain_bytes(s: Seq<char>, n: int)
    requires
        0 <= n <= 10 <= s.len(),
        forall|i: int| 0 <= i < 10 ==> (#[trigger] s[i] as u32) < 0x80,
    ensures
        byte_len(s.take(n)) == n,
    decreases n,
{
    if n > 0 {
        lemma_plain_bytes(s, n - 1);
        assert(s.take(n).drop_last() =~= s.take(n - 1));
        assert(s.take(n).last() == s[n - 1]);
    }
}

/// The campaign of an ad is that of its last row; an ad without a row has an empty one.
pub proof fn law_last_row_tells_the_campaign(rows: Seq<AdsDailyRowV>, ad: Seq<char>, k: int)
    requires
        0 <= k < rows.len(),
        rows[k].ad_id == ad,
        forall|i: int| k < i < rows.len() ==> (#[trigger] rows[i]).ad_id != ad,
    ensures
        campaign_of(rows, ad) == rows[k].campaign_id,
    decreases rows.len(),
{
    if k < rows.len() - 1 {
        assert(rows[rows.len() - 1].ad_id != ad);
        let rest = rows.drop_last();
        assert(rest[k] == rows[k]);
        assert forall|i: int| k < i < rest.len() implies (#[trigger] rest[i]).ad_id != ad by {
            assert(rest[i] == rows[i]);
        }
        law_last_row_tells_the_campaign(rest, ad, k);
    }
}

// Phones

proof fn lemma_digits_joined(a: Seq<char>, b: Seq<char>)
    ensures
        digits_of(a + b) == digits_of(a) + digits_of(b),
    decreases b.len(),
{
    if b.len() == 0 {
        assert(a + b =~= a);
        assert(digits_of(a) + digits_of(b) =~= digits_of(a));
    } else {
        assert((a + b).drop_last() =~= a + b.drop_last());
        lemma_digits_joined(a, b.drop_last());
        assert((a + b).last() == b.last());
        assert(digits_of(a + b) =~= digits_of(a) + digits_of(b));
    }
}

proof fn lemma_all_digits(d: Seq<char>)
    requires
        forall|i: int| 0 <= i < d.len() ==> is_digit(#[trigger] d[i]),
    ensures
        digits_of(d) == d,
    decreases d.len(),
{
    if d.len() > 0 {
        let rest = d.drop_last();
        assert forall|i: int| 0 <= i < rest.len() implies is_digit(#[trigger] rest[i]) by {
            assert(rest[i] == d[i]);
        }
        lemma_all_digits(rest);
        assert(is_digit(d[d.len() - 1]));
        assert(rest.push(d.last()) =~= d);
    } else {
        assert(digits_of(d) =~= d);
    }
}

/// A mobile number is itself, with or without the country code or a zero ahead of it, and whatever
/// stands between its digits.
pub proof fn law_mobile_is_written_in_many_ways(d: Seq<char>, a: Seq<char>, b: Seq<char>, c: char)
    requires
        is_mobile(d),
        !is_digit(c),
    ensures
        phone_of(d) == d,
        phone_of(seq!['9', '1'] + d) == d,
        phone_of(seq!['0'] + d) == d,
        phone_of(a + seq![c] + b) == phone_of(a + b),
{
    lemma_all_digits(d);
    let code = seq!['9', '1'] + d;
    assert forall|i: int| 0 <= i < code.len() implies is_digit(#[trigger] code[i]) by {
        if i >= 2 {
            assert(code[i] == d[i - 2]);
        }
    }
    lemma_all_digits(code);
    assert(code.skip(2) =~= d);
    let zero = seq!['0'] + d;
    assert forall|i: int| 0 <= i < zero.len() implies is_digit(#[trigger] zero[i]) by {
        if i >= 1 {
            assert(zero[i] == d[i - 1]);
        }
    }
    lemma_all_digits(zero);
    assert(zero.skip(1) =~= d);
    lemma_digits_joined(a + seq![c], b);
    lemma_digits_joined(a, seq![c]);
    lemma_digits_joined(a, b);
    assert(seq![c].drop_last() =~= Seq::empty());
    reveal_with_fuel(digits_of, 2);
    assert(digits_of(seq![c]) =~= Seq::empty());
    assert(digits_of(a) + Seq::empty() =~= digits_of(a));
}

// Counts

proof fn lemma_counts_are_filtered(
    v: Seq<(Seq<char>, LeadKind)>,
    ads: Seq<Seq<char>>,
    kind: LeadKind,
)
    ensures
        count_leads(v, ads) == v.filter(|p: (Seq<char>, LeadKind)| ads.contains(p.0)).len(),
        count_kind(v, ads, kind) == v.filter(
            |p: (Seq<char>, LeadKind)| ads.contains(p.0) && p.1 == kind,
        ).len(),
    decreases v.len(),
{
    reveal(Seq::filter);
    if v.len() > 0 {
        lemma_counts_are_filtered(v.drop_last(), ads, kind);
    }
}

/// The counts of ads are those of the leads of these ads: all of them, and those of each kind.
pub proof fn law_counts_are_of_their_kind(
    s: Segmentation,
    v: Seq<(Seq<char>, LeadKind)>,
    ads: Seq<Seq<char>>,
)
    requires
        is_split(s, v, ads),
    ensures
        ({
            let ours = v.filter(|p: (Seq<char>, LeadKind)| ads.contains(p.0));
            s.total == ours.len()
        }),
        s.captured == v.filter(
            |p: (Seq<char>, LeadKind)| ads.contains(p.0) && p.1 == LeadKind::Captured,
        ).len(),
        s.reinquiry == v.filter(
            |p: (Seq<char>, LeadKind)| ads.contains(p.0) && p.1 == LeadKind::Reinquiry,
        ).len(),
        s.duplicate == v.filter(
            |p: (Seq<char>, LeadKind)| ads.contains(p.0) && p.1 == LeadKind::Duplicate,
        ).len(),
        s.invalid == v.filter(
            |p: (Seq<char>, LeadKind)| ads.contains(p.0) && p.1 == LeadKind::Invalid,
        ).len(),
        s.uncaptured == v.filter(
            |p: (Seq<char>, LeadKind)| ads.contains(p.0) && p.1 == LeadKind::Uncaptured,
        ).len(),
        s.total == s.captured + s.reinquiry + s.duplicate + s.invalid + s.uncaptured,
{
    let f = |k: LeadKind| |p: (Seq<char>, LeadKind)| ads.contains(p.0) && p.1 == k;
    lemma_counts_are_filtered(v, ads, LeadKind::Captured);
    lemma_counts_are_filtered(v, ads, LeadKind::Reinquiry);
    lemma_counts_are_filtered(v, ads, LeadKind::Duplicate);
    lemma_counts_are_filtered(v, ads, LeadKind::Invalid);
    lemma_counts_are_filtered(v, ads, LeadKind::Uncaptured);
    law_kinds_add_up(v, ads);
    assert((|p: (Seq<char>, LeadKind)| ads.contains(p.0) && p.1 == LeadKind::Captured) =~= f(
        LeadKind::Captured,
    ));
    assert((|p: (Seq<char>, LeadKind)| ads.contains(p.0) && p.1 == LeadKind::Reinquiry) =~= f(
        LeadKind::Reinquiry,
    ));
    assert((|p: (Seq<char>, LeadKind)| ads.contains(p.0) && p.1 == LeadKind::Duplicate) =~= f(
        LeadKind::Duplicate,
    ));
    assert((|p: (Seq<char>, LeadKind)| ads.contains(p.0) && p.1 == LeadKind::Invalid) =~= f(
        LeadKind::Invalid,
    ));
    assert((|p: (Seq<char>, LeadKind)| ads.contains(p.0) && p.1 == LeadKind::Uncaptured) =~= f(
        LeadKind::Uncaptured,
    ));
}

} // verus!
