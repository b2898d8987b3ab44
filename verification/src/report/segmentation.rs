//! What became of the leads of the ads: why a lead that was submitted is not, or not anew, in the
//! CRM.

use crate::crm::{ad_id_in, for_each_ticket, ticket_ad_id, tickets_in, timed_view};
use crate::json::{member, opt_str, text_in, Json, JsonV};
use crate::schema::{
    contacts_view, leads_view, ContactRow, ContactRowV, LeadRow, LeadRowV, Segmentation,
};
use crate::rank::order_view;
use crate::sets::{
    find_text, lemma_place_of, order_texts, sort_set, sorted_set, text_order,
};
use crate::snapshot::{ads_view, AdsDailyRow, AdsDailyRowV};
use crate::strs::{
    chars_of, is_digit, less, lowercase, lowercase_of, opt_view, push_text, same, slice_text,
    text_lt, trim, trimmed, views,
};
use crate::text::{byte_len, bytes_up_to, cut, truncate_chars};
use crate::window::{Window, WindowV};
use vstd::prelude::*;

pub mod laws;

verus! {

// Phones and mails

/// The digits of a text.
pub open spec fn digits_of(s: Seq<char>) -> Seq<char>
    decreases s.len(),
{
    if s.len() == 0 {
        Seq::empty()
    } else {
        let before = digits_of(s.drop_last());
        if is_digit(s.last()) {
            before.push(s.last())
        } else {
            before
        }
    }
}

/// The digits of a phone number, without the country code 91 or the zero ahead of it.
pub open spec fn phone_of(p: Seq<char>) -> Seq<char> {
    let d = digits_of(p);
    if d.len() == 12 && d[0] == '9' && d[1] == '1' {
        d.skip(2)
    } else if d.len() == 11 && d[0] == '0' {
        d.skip(1)
    } else {
        d
    }
}

pub fn norm_phone(p: &str) -> (r: String)
    ensures
        r@ == phone_of(p@),
{
    let v = chars_of(p);
    let mut d: Vec<char> = Vec::new();
    let mut i: usize = 0;
    assert(v@.take(0) =~= Seq::empty());
    while i < v.len()
        invariant
            i <= v@.len(),
            d@ == digits_of(v@.take(i as int)),
        decreases v.len() - i,
    {
        assert(v@.take(i + 1).drop_last() =~= v@.take(i as int));
        if '0' <= v[i] && v[i] <= '9' {
            d.push(v[i]);
        }
        i += 1;
    }
    assert(v@.take(i as int) =~= v@);
    let from: usize = if d.len() == 12 && d[0] == '9' && d[1] == '1' {
        2
    } else if d.len() == 11 && d[0] == '0' {
        1
    } else {
        0
    };
    let r = slice_text(&d, from, d.len());
    assert(r@ =~= d@.skip(from as int));
    assert(d@.skip(0) =~= d@);
    r
}

/// Whether a number is that of a mobile phone: ten digits, with one from 6 to 9 ahead.
pub open spec fn is_mobile(d: Seq<char>) -> bool {
    &&& d.len() == 10
    &&& forall|k: int| 0 <= k < d.len() ==> is_digit(#[trigger] d[k])
    &&& '6' <= d[0] && d[0] <= '9'
}

pub fn valid_phone(d: &str) -> (r: bool)
    ensures
        r == is_mobile(d@),
{
    let v = chars_of(d);
    if v.len() != 10 || v[0] < '6' || '9' < v[0] {
        return false;
    }
    let mut i: usize = 0;
    while i < v.len()
        invariant
            i <= v@.len(),
            v@ == d@,
            forall|k: int| 0 <= k < i ==> is_digit(#[trigger] v@[k]),
        decreases v.len() - i,
    {
        if v[i] < '0' || '9' < v[i] {
            assert(!is_digit(d@[i as int]));
            return false;
        }
        i += 1;
    }
    true
}

/// The number of a mobile phone, where one is given.
pub open spec fn mobile_in(p: Option<Seq<char>>) -> Option<Seq<char>> {
    match p {
        Some(s) => if is_mobile(phone_of(s)) {
            Some(phone_of(s))
        } else {
            None
        },
        None => None,
    }
}

fn mobile(p: Option<&str>) -> (r: Option<String>)
    ensures
        opt_view(r) == mobile_in(
            match p {
                Some(s) => Some(s@),
                None => None,
            },
        ),
{
    match p {
        Some(s) => {
            let n = norm_phone(s);
            if valid_phone(n.as_str()) {
                Some(n)
            } else {
                None
            }
        },
        None => None,
    }
}

/// A mail address, white space aside and in lower case.
pub open spec fn mail_of(e: Seq<char>) -> Seq<char> {
    lowercase_of(trimmed(e))
}

/// The mail address that is given, if it is not empty.
pub open spec fn mail_in(e: Option<Seq<char>>) -> Option<Seq<char>> {
    match e {
        Some(s) => if mail_of(s).len() > 0 {
            Some(mail_of(s))
        } else {
            None
        },
        None => None,
    }
}

fn mail(e: Option<&str>) -> (r: Option<String>)
    ensures
        opt_view(r) == mail_in(
            match e {
                Some(s) => Some(s@),
                None => None,
            },
        ),
{
    match e {
        Some(s) => {
            let m = lowercase(trim(s).as_str());
            if chars_of(m.as_str()).len() > 0 {
                Some(m)
            } else {
                None
            }
        },
        None => None,
    }
}

fn opt_text<'a>(o: &'a Option<String>) -> (r: Option<&'a str>)
    ensures
        match r {
            Some(s) => opt_view(*o) == Some(s@),
            None => opt_view(*o) is None,
        },
{
    match o {
        Some(s) => Some(s.as_str()),
        None => None,
    }
}

// What the CRM knows

/// The campaign of an ad, as its last row says; empty where it has none.
pub open spec fn campaign_of(rows: Seq<AdsDailyRowV>, ad: Seq<char>) -> Seq<char>
    decreases rows.len(),
{
    if rows.len() == 0 {
        Seq::empty()
    } else if rows.last().ad_id == ad {
        rows.last().campaign_id
    } else {
        campaign_of(rows.drop_last(), ad)
    }
}

fn find_campaign(rows: &Vec<AdsDailyRow>, ad: &str) -> (r: String)
    ensures
        r@ == campaign_of(ads_view(rows@), ad@),
{
    let ghost all = ads_view(rows@);
    let mut n: usize = rows.len();
    assert(all.take(n as int) =~= all);
    while n > 0
        invariant
            n <= rows@.len(),
            all == ads_view(rows@),
            campaign_of(all, ad@) == campaign_of(all.take(n as int), ad@),
        decreases n,
    {
        assert(all.take(n as int).drop_last() =~= all.take(n - 1));
        assert(all[n - 1] == rows@[n - 1]@);
        if same(rows[n - 1].ad_id.as_str(), ad) {
            return rows[n - 1].campaign_id.clone();
        }
        n -= 1;
    }
    let r = String::new();
    assert(r@ =~= Seq::empty());
    r
}

/// A person that the CRM knows: of a ticket with its campaign, or without one.
pub struct Known {
    pub campaign: Option<String>,
    pub lead_id: Option<String>,
    pub phone: Option<String>,
    pub mail: Option<String>,
}

#[verifier::ext_equal]
pub struct KnownV {
    pub campaign: Option<Seq<char>>,
    pub lead_id: Option<Seq<char>>,
    pub phone: Option<Seq<char>>,
    pub mail: Option<Seq<char>>,
}

impl View for Known {
    type V = KnownV;

    open spec fn view(&self) -> KnownV {
        KnownV {
            campaign: opt_view(self.campaign),
            lead_id: opt_view(self.lead_id),
            phone: opt_view(self.phone),
            mail: opt_view(self.mail),
        }
    }
}

pub open spec fn known_view(v: Seq<Known>) -> Seq<KnownV> {
    v.map_values(|k: Known| k@)
}

pub open spec fn ad_or_none(t: JsonV) -> Seq<char> {
    match ad_id_in(t) {
        Some(a) => a,
        None => Seq::empty(),
    }
}

pub open spec fn ticket_known(t: JsonV, rows: Seq<AdsDailyRowV>) -> KnownV {
    KnownV {
        campaign: Some(campaign_of(rows, ad_or_none(t))),
        lead_id: text_in(member(t, "lead_id"@)),
        phone: mobile_in(text_in(member(t, "phone"@))),
        mail: mail_in(text_in(member(t, "email"@))),
    }
}

pub open spec fn contact_known(c: ContactRowV) -> KnownV {
    KnownV { campaign: None, lead_id: None, phone: mobile_in(c.phone), mail: mail_in(c.email) }
}

/// Everyone that the CRM knows: those of its tickets, and the contacts that came without an ad.
pub open spec fn everyone(
    tickets: Seq<JsonV>,
    contacts: Seq<ContactRowV>,
    rows: Seq<AdsDailyRowV>,
) -> Seq<KnownV> {
    tickets.map_values(|t: JsonV| ticket_known(t, rows)) + contacts.map_values(
        |c: ContactRowV| contact_known(c),
    )
}

fn owned(o: Option<&str>) -> (r: Option<String>)
    ensures
        opt_view(r) == match o {
            Some(s) => Some(s@),
            None => None,
        },
{
    match o {
        Some(s) => Some(s.to_owned()),
        None => None,
    }
}

/// Lists everyone that the CRM knows.
pub fn list_known(crm: &Json, contacts: &Vec<ContactRow>, rows: &Vec<AdsDailyRow>) -> (r: Vec<Known>)
    ensures
        known_view(r@) == everyone(tickets_in(crm@), contacts_view(contacts@), ads_view(rows@)),
{
    let timed = for_each_ticket(crm);
    let ghost ads = ads_view(rows@);
    let ghost first = tickets_in(crm@).map_values(|t: JsonV| ticket_known(t, ads));
    let ghost rest = contacts_view(contacts@).map_values(|c: ContactRowV| contact_known(c));
    let mut out: Vec<Known> = Vec::new();
    let mut i: usize = 0;
    assert(known_view(out@) =~= first.take(0));
    assert(timed_view(timed@).len() == timed@.len());
    while i < timed.len()
        invariant
            i <= timed@.len(),
            timed@.len() == tickets_in(crm@).len(),
            timed_view(timed@) == tickets_in(crm@).map_values(
                |t: JsonV| (t, crate::crm::delivery_or_min(t)),
            ),
            ads == ads_view(rows@),
            first == tickets_in(crm@).map_values(|t: JsonV| ticket_known(t, ads)),
            known_view(out@) == first.take(i as int),
        decreases timed.len() - i,
    {
        assert(timed_view(timed@)[i as int] == (timed@[i as int].0@, timed@[i as int].1));
        let t = timed[i].0;
        let ad = match ticket_ad_id(t) {
            Some(a) => a,
            None => String::new(),
        };
        assert(ad@ =~= ad_or_none(t@));
        let k = Known {
            campaign: Some(find_campaign(rows, ad.as_str())),
            lead_id: owned(opt_str(t.get("lead_id"))),
            phone: mobile(opt_str(t.get("phone"))),
            mail: mail(opt_str(t.get("email"))),
        };
        assert(k@ =~= first[i as int]);
        assert(known_view(out@.push(k)) =~= known_view(out@).push(k@));
        assert(first.take(i + 1) =~= first.take(i as int).push(first[i as int]));
        out.push(k);
        i += 1;
    }
    assert(first.take(i as int) =~= first);
    let mut j: usize = 0;
    assert(first + rest.take(0) =~= first);
    while j < contacts.len()
        invariant
            j <= contacts@.len(),
            rest == contacts_view(contacts@).map_values(|c: ContactRowV| contact_known(c)),
            known_view(out@) == first + rest.take(j as int),
        decreases contacts.len() - j,
    {
        assert(contacts_view(contacts@)[j as int] == contacts@[j as int]@);
        let c = &contacts[j];
        let k = Known {
            campaign: None,
            lead_id: None,
            phone: mobile(opt_text(&c.phone)),
            mail: mail(opt_text(&c.email)),
        };
        assert(k@ =~= rest[j as int]);
        assert(known_view(out@.push(k)) =~= known_view(out@).push(k@));
        assert(first + rest.take(j + 1) =~= (first + rest.take(j as int)).push(rest[j as int]));
        out.push(k);
        j += 1;
    }
    assert(rest.take(j as int) =~= rest);
    out
}

// Kinds of leads

/// What became of a lead.
#[derive(Debug, Clone, Copy, PartialEq, Eq, Structural)]
pub enum LeadKind {
    /// It is in the CRM.
    Captured,
    /// The CRM rejects its phone number.
    Invalid,
    /// Its campaign has that person already.
    Duplicate,
    /// The CRM knows that person from elsewhere.
    Reinquiry,
    /// It should be in the CRM and is not.
    Uncaptured,
}

pub open spec fn has_lead(known: Seq<KnownV>, campaign: Seq<char>, id: Seq<char>) -> bool {
    exists|i: int|
        0 <= i < known.len() && (#[trigger] known[i]).campaign == Some(campaign)
            && known[i].lead_id == Some(id)
}

pub open spec fn has_phone_in(known: Seq<KnownV>, campaign: Seq<char>, p: Seq<char>) -> bool {
    exists|i: int|
        0 <= i < known.len() && (#[trigger] known[i]).campaign == Some(campaign)
            && known[i].phone == Some(p)
}

pub open spec fn has_mail_in(known: Seq<KnownV>, campaign: Seq<char>, m: Seq<char>) -> bool {
    exists|i: int|
        0 <= i < known.len() && (#[trigger] known[i]).campaign == Some(campaign)
            && known[i].mail == Some(m)
}

pub open spec fn has_phone(known: Seq<KnownV>, p: Seq<char>) -> bool {
    exists|i: int| 0 <= i < known.len() && (#[trigger] known[i]).phone == Some(p)
}

pub open spec fn has_mail(known: Seq<KnownV>, m: Seq<char>) -> bool {
    exists|i: int| 0 <= i < known.len() && (#[trigger] known[i]).mail == Some(m)
}

/// Whether one of the leads has the phone number.
pub open spec fn seen_phone(leads: Seq<LeadRowV>, p: Seq<char>) -> bool {
    exists|i: int| 0 <= i < leads.len() && mobile_in((#[trigger] leads[i]).phone) == Some(p)
}

/// Whether one of the leads has the mail address.
pub open spec fn seen_mail(leads: Seq<LeadRowV>, m: Seq<char>) -> bool {
    exists|i: int| 0 <= i < leads.len() && mail_in((#[trigger] leads[i]).email) == Some(m)
}

/// What became of a lead that was submitted after the `earlier` ones.
pub open spec fn kind_of(
    l: LeadRowV,
    earlier: Seq<LeadRowV>,
    known: Seq<KnownV>,
    campaign: Seq<char>,
) -> LeadKind {
    if l.lead_id.len() > 0 && has_lead(known, campaign, l.lead_id) {
        LeadKind::Captured
    } else {
        match mobile_in(l.phone) {
            None => LeadKind::Invalid,
            Some(p) => {
                let m = mail_in(l.email);
                if has_phone_in(known, campaign, p) || seen_phone(earlier, p) || (m matches Some(e)
                    && (has_mail_in(known, campaign, e) || seen_mail(earlier, e))) {
                    LeadKind::Duplicate
                } else if has_phone(known, p) || (m matches Some(e) && has_mail(known, e)) {
                    LeadKind::Reinquiry
                } else {
                    LeadKind::Uncaptured
                }
            },
        }
    }
}

fn is_text(o: &Option<String>, t: &str) -> (r: bool)
    ensures
        r == (opt_view(*o) == Some(t@)),
{
    match o {
        Some(s) => same(s.as_str(), t),
        None => false,
    }
}

/// What the CRM knows of a person: whether their lead, phone and mail are in the campaign, and
/// whether phone and mail are anywhere.
struct Seen {
    lead: bool,
    phone_in: bool,
    mail_in: bool,
    phone: bool,
    mail: bool,
}

fn look_up(
    known: &Vec<Known>,
    campaign: &str,
    id: &str,
    p: &Option<String>,
    m: &Option<String>,
) -> (r: Seen)
    ensures
        r.lead == has_lead(known_view(known@), campaign@, id@),
        opt_view(*p) matches Some(s) ==> {
            &&& r.phone_in == has_phone_in(known_view(known@), campaign@, s)
            &&& r.phone == has_phone(known_view(known@), s)
        },
        opt_view(*m) matches Some(s) ==> {
            &&& r.mail_in == has_mail_in(known_view(known@), campaign@, s)
            &&& r.mail == has_mail(known_view(known@), s)
        },
{
    let ghost all = known_view(known@);
    let mut r = Seen { lead: false, phone_in: false, mail_in: false, phone: false, mail: false };
    let mut i: usize = 0;
    assert(all.take(0) =~= Seq::empty());
    while i < known.len()
        invariant
            i <= known@.len(),
            all == known_view(known@),
            r.lead == has_lead(all.take(i as int), campaign@, id@),
            opt_view(*p) matches Some(s) ==> {
                &&& r.phone_in == has_phone_in(all.take(i as int), campaign@, s)
                &&& r.phone == has_phone(all.take(i as int), s)
            },
            opt_view(*m) matches Some(s) ==> {
                &&& r.mail_in == has_mail_in(all.take(i as int), campaign@, s)
                &&& r.mail == has_mail(all.take(i as int), s)
            },
        decreases known.len() - i,
    {
        let k = &known[i];
        let ghost before = all.take(i as int);
        let ghost now = all.take(i + 1);
        assert(all[i as int] == k@);
        assert(now[i as int] == k@);
        assert(forall|j: int| 0 <= j < i ==> #[trigger] before[j] == now[j]);
        assert(forall|j: int| 0 <= j < i ==> before[j] == #[trigger] now[j]);
        let here = is_text(&k.campaign, campaign);
        if here && is_text(&k.lead_id, id) {
            r.lead = true;
        }
        match p {
            Some(s) => {
                if is_text(&k.phone, s.as_str()) {
                    r.phone = true;
                    if here {
                        r.phone_in = true;
                    }
                }
            },
            None => {},
        }
        match m {
            Some(s) => {
                if is_text(&k.mail, s.as_str()) {
                    r.mail = true;
                    if here {
                        r.mail_in = true;
                    }
                }
            },
            None => {},
        }
        i += 1;
    }
    assert(all.take(i as int) =~= all);
    r
}

fn look_back(leads: &Vec<&LeadRow>, n: usize, p: &Option<String>, m: &Option<String>) -> (r: (
    bool,
    bool,
))
    requires
        n <= leads@.len(),
    ensures
        opt_view(*p) matches Some(s) ==> r.0 == seen_phone(lead_refs(leads@).take(n as int), s),
        opt_view(*m) matches Some(s) ==> r.1 == seen_mail(lead_refs(leads@).take(n as int), s),
{
    let ghost all = lead_refs(leads@);
    let mut phone = false;
    let mut mails = false;
    let mut i: usize = 0;
    while i < n
        invariant
            i <= n <= leads@.len(),
            all == lead_refs(leads@),
            opt_view(*p) matches Some(s) ==> phone == seen_phone(all.take(i as int), s),
            opt_view(*m) matches Some(s) ==> mails == seen_mail(all.take(i as int), s),
        decreases n - i,
    {
        let l = leads[i];
        let ghost before = all.take(i as int);
        let ghost now = all.take(i + 1);
        assert(all[i as int] == l@);
        assert(now[i as int] == l@);
        assert(forall|j: int| 0 <= j < i ==> #[trigger] before[j] == now[j]);
        assert(forall|j: int| 0 <= j < i ==> before[j] == #[trigger] now[j]);
        match p {
            Some(s) => {
                if is_text(&mobile(opt_text(&l.phone)), s.as_str()) {
                    phone = true;
                }
            },
            None => {},
        }
        match m {
            Some(s) => {
                if is_text(&mail(opt_text(&l.email)), s.as_str()) {
                    mails = true;
                }
            },
            None => {},
        }
        i += 1;
    }
    (phone, mails)
}

// The leads of the days

/// The day of a time: its first ten bytes, or nothing where they are no whole characters.
pub open spec fn day_in(time: Seq<char>) -> Seq<char> {
    let c = cut(time, 10);
    if byte_len(c) == 10 {
        c
    } else {
        Seq::empty()
    }
}

pub open spec fn lead_counts(l: LeadRowV, w: WindowV) -> bool {
    !text_lt(day_in(l.created_time), w.since) && !text_lt(w.until, day_in(l.created_time))
}

/// The leads of the days, as they stand in the file.
pub open spec fn leads_between(leads: Seq<LeadRowV>, w: WindowV) -> Seq<LeadRowV>
    decreases leads.len(),
{
    if leads.len() == 0 {
        Seq::empty()
    } else {
        let before = leads_between(leads.drop_last(), w);
        if lead_counts(leads.last(), w) {
            before.push(leads.last())
        } else {
            before
        }
    }
}

/// Leads in the order of their times; those of one time stay as they are.
pub open spec fn by_time(leads: Seq<LeadRowV>) -> Seq<LeadRowV> {
    let times = leads.map_values(|l: LeadRowV| l.created_time);
    text_order(times, leads.len() as int).map_values(|i: int| leads[i])
}

pub open spec fn lead_refs(v: Seq<&LeadRow>) -> Seq<LeadRowV> {
    v.map_values(|l: &LeadRow| l@)
}

fn pick_leads<'a>(leads: &'a Vec<LeadRow>, w: &Window) -> (r: Vec<&'a LeadRow>)
    ensures
        lead_refs(r@) == leads_between(leads_view(leads@), w@),
{
    let ghost all = leads_view(leads@);
    let mut out: Vec<&'a LeadRow> = Vec::new();
    let mut i: usize = 0;
    assert(lead_refs(out@) =~= Seq::empty());
    assert(all.take(0) =~= Seq::empty());
    while i < leads.len()
        invariant
            i <= leads@.len(),
            all == leads_view(leads@),
            lead_refs(out@) == leads_between(all.take(i as int), w@),
        decreases leads.len() - i,
    {
        assert(all.take(i + 1).drop_last() =~= all.take(i as int));
        assert(all[i as int] == leads@[i as int]@);
        let l = &leads[i];
        let head = truncate_chars(l.created_time.as_str(), 10);
        let day = if bytes_up_to(head, 10) == 10 {
            head
        } else {
            ""
        };
        proof {
            reveal_strlit("");
            assert(day@ =~= day_in(l@.created_time));
        }
        if !less(day, w.since.as_str()) && !less(w.until.as_str(), day) {
            assert(lead_refs(out@.push(l)) =~= lead_refs(out@).push(l@));
            out.push(l);
        }
        i += 1;
    }
    assert(all.take(i as int) =~= all);
    out
}

fn sort_leads<'a>(leads: &Vec<&'a LeadRow>) -> (r: Vec<&'a LeadRow>)
    ensures
        lead_refs(r@) == by_time(lead_refs(leads@)),
{
    let ghost all = lead_refs(leads@);
    let ghost want = all.map_values(|l: LeadRowV| l.created_time);
    let mut times: Vec<String> = Vec::new();
    let mut i: usize = 0;
    assert(views(times@) =~= want.take(0));
    while i < leads.len()
        invariant
            i <= leads@.len(),
            all == lead_refs(leads@),
            want == all.map_values(|l: LeadRowV| l.created_time),
            views(times@) == want.take(i as int),
        decreases leads.len() - i,
    {
        assert(all[i as int] == leads@[i as int]@);
        assert(want.take(i + 1) =~= want.take(i as int).push(want[i as int]));
        push_text(&mut times, leads[i].created_time.clone());
        i += 1;
    }
    assert(want.take(i as int) =~= want);
    assert(views(times@).len() == times@.len());
    let order = order_texts(&times);
    let ghost o = order_view(order@);
    let mut out: Vec<&'a LeadRow> = Vec::new();
    let mut k: usize = 0;
    assert(lead_refs(out@) =~= by_time(all).take(0));
    while k < order.len()
        invariant
            k <= order@.len(),
            order@.len() == leads@.len(),
            all == lead_refs(leads@),
            o == order_view(order@),
            want == all.map_values(|l: LeadRowV| l.created_time),
            o == text_order(want, all.len() as int),
            forall|j: int| 0 <= j < order@.len() ==> (#[trigger] order@[j]) < leads@.len(),
            lead_refs(out@) == by_time(all).take(k as int),
        decreases order.len() - k,
    {
        let l = leads[order[k]];
        assert(o[k as int] == order@[k as int]);
        assert(by_time(all)[k as int] == all[o[k as int]]);
        assert(all[order@[k as int] as int] == l@);
        assert(lead_refs(out@.push(l)) =~= lead_refs(out@).push(l@));
        assert(by_time(all).take(k + 1) =~= by_time(all).take(k as int).push(by_time(all)[k as int]));
        out.push(l);
        k += 1;
    }
    assert(by_time(all).take(k as int) =~= by_time(all));
    out
}

// Kinds of all leads

/// The ad and the kind of each of the first `n` leads.
pub open spec fn sorted_out(
    leads: Seq<LeadRowV>,
    known: Seq<KnownV>,
    rows: Seq<AdsDailyRowV>,
) -> Seq<(Seq<char>, LeadKind)> {
    Seq::new(
        leads.len(),
        |i: int|
            (
                leads[i].ad_id,
                kind_of(leads[i], leads.take(i), known, campaign_of(rows, leads[i].ad_id)),
            ),
    )
}

/// A lead by its ad and its kind.
#[derive(Debug)]
pub struct Sorted {
    pub ad_id: String,
    pub kind: LeadKind,
}

pub open spec fn kinds_view(v: Seq<Sorted>) -> Seq<(Seq<char>, LeadKind)> {
    v.map_values(|s: Sorted| (s.ad_id@, s.kind))
}

/// The ad and the kind of every lead of the days, in the order in which they were submitted.
pub open spec fn kinds_of(
    leads: Seq<LeadRowV>,
    tickets: Seq<JsonV>,
    contacts: Seq<ContactRowV>,
    rows: Seq<AdsDailyRowV>,
    w: WindowV,
) -> Seq<(Seq<char>, LeadKind)> {
    sorted_out(by_time(leads_between(leads, w)), everyone(tickets, contacts, rows), rows)
}

/// Finds out what became of every lead of the days.
pub fn classify(
    leads: &Vec<LeadRow>,
    crm: &Json,
    contacts: &Vec<ContactRow>,
    rows: &Vec<AdsDailyRow>,
    w: &Window,
) -> (r: Vec<Sorted>)
    ensures
        kinds_view(r@) == kinds_of(
            leads_view(leads@),
            tickets_in(crm@),
            contacts_view(contacts@),
            ads_view(rows@),
            w@,
        ),
{
    let known = list_known(crm, contacts, rows);
    let picked = sort_leads(&pick_leads(leads, w));
    let ghost all = lead_refs(picked@);
    let ghost ks = known_view(known@);
    let ghost want = sorted_out(all, ks, ads_view(rows@));
    let mut out: Vec<Sorted> = Vec::new();
    let mut i: usize = 0;
    assert(kinds_view(out@) =~= want.take(0));
    while i < picked.len()
        invariant
            i <= picked@.len(),
            all == lead_refs(picked@),
            ks == known_view(known@),
            want == sorted_out(all, ks, ads_view(rows@)),
            kinds_view(out@) == want.take(i as int),
        decreases picked.len() - i,
    {
        let l = picked[i];
        assert(all[i as int] == l@);
        let campaign = find_campaign(rows, l.ad_id.as_str());
        let p = mobile(opt_text(&l.phone));
        let m = mail(opt_text(&l.email));
        let seen = look_up(&known, campaign.as_str(), l.lead_id.as_str(), &p, &m);
        let back = look_back(&picked, i, &p, &m);
        let kind = if chars_of(l.lead_id.as_str()).len() > 0 && seen.lead {
            LeadKind::Captured
        } else if p.is_none() {
            LeadKind::Invalid
        } else if seen.phone_in || back.0 || (m.is_some() && (seen.mail_in || back.1)) {
            LeadKind::Duplicate
        } else if seen.phone || (m.is_some() && seen.mail) {
            LeadKind::Reinquiry
        } else {
            LeadKind::Uncaptured
        };
        assert(kind == kind_of(l@, all.take(i as int), ks, campaign@));
        let s = Sorted { ad_id: l.ad_id.clone(), kind };
        assert(kinds_view(out@.push(s)) =~= kinds_view(out@).push((s.ad_id@, s.kind)));
        assert(want.take(i + 1) =~= want.take(i as int).push(want[i as int]));
        out.push(s);
        i += 1;
    }
    assert(want.take(i as int) =~= want);
    out
}

// Counting

/// How many of the leads are of one of the ads.
pub open spec fn count_leads(v: Seq<(Seq<char>, LeadKind)>, ads: Seq<Seq<char>>) -> nat
    decreases v.len(),
{
    if v.len() == 0 {
        0
    } else {
        count_leads(v.drop_last(), ads) + if ads.contains(v.last().0) {
            1nat
        } else {
            0
        }
    }
}

/// How many of the leads are of one of the ads and of a kind.
pub open spec fn count_kind(v: Seq<(Seq<char>, LeadKind)>, ads: Seq<Seq<char>>, k: LeadKind) -> nat
    decreases v.len(),
{
    if v.len() == 0 {
        0
    } else {
        count_kind(v.drop_last(), ads, k) + if ads.contains(v.last().0) && v.last().1 == k {
            1nat
        } else {
            0
        }
    }
}

/// Whether counts are those of the leads of the ads.
pub open spec fn is_split(s: Segmentation, v: Seq<(Seq<char>, LeadKind)>, ads: Seq<Seq<char>>) -> bool {
    &&& s.total == count_leads(v, ads)
    &&& s.captured == count_kind(v, ads, LeadKind::Captured)
    &&& s.reinquiry == count_kind(v, ads, LeadKind::Reinquiry)
    &&& s.duplicate == count_kind(v, ads, LeadKind::Duplicate)
    &&& s.invalid == count_kind(v, ads, LeadKind::Invalid)
    &&& s.uncaptured == count_kind(v, ads, LeadKind::Uncaptured)
}

/// Every lead is of just one kind: the five counts add up to all of them.
pub proof fn law_kinds_add_up(v: Seq<(Seq<char>, LeadKind)>, ads: Seq<Seq<char>>)
    ensures
        count_leads(v, ads) == count_kind(v, ads, LeadKind::Captured) + count_kind(
            v,
            ads,
            LeadKind::Reinquiry,
        ) + count_kind(v, ads, LeadKind::Duplicate) + count_kind(v, ads, LeadKind::Invalid)
            + count_kind(v, ads, LeadKind::Uncaptured),
        count_leads(v, ads) <= v.len(),
    decreases v.len(),
{
    if v.len() > 0 {
        law_kinds_add_up(v.drop_last(), ads);
    }
}

fn is_one_of(ads: &Vec<String>, ad: &str) -> (r: bool)
    ensures
        r == views(ads@).contains(ad@),
{
    let i: usize = find_text(ads, ad);
    proof {
        lemma_place_of(views(ads@), ad@);
    }
    i < ads.len()
}

/// Counts the leads of ads by their kinds.
pub fn split(v: &Vec<Sorted>, ads: &Vec<String>) -> (r: Segmentation)
    ensures
        is_split(r, kinds_view(v@), views(ads@)),
{
    let ghost all = kinds_view(v@);
    let ghost of = views(ads@);
    let mut r = Segmentation {
        total: 0,
        captured: 0,
        reinquiry: 0,
        duplicate: 0,
        invalid: 0,
        uncaptured: 0,
    };
    let mut i: usize = 0;
    assert(all.take(0) =~= Seq::empty());
    while i < v.len()
        invariant
            i <= v@.len(),
            all == kinds_view(v@),
            of == views(ads@),
            is_split(r, all.take(i as int), of),
        decreases v.len() - i,
    {
        assert(all.take(i + 1).drop_last() =~= all.take(i as int));
        assert(all[i as int] == (v@[i as int].ad_id@, v@[i as int].kind));
        proof {
            law_kinds_add_up(all.take(i as int), of);
        }
        if is_one_of(ads, v[i].ad_id.as_str()) {
            r.total = r.total + 1;
            match v[i].kind {
                LeadKind::Captured => {
                    r.captured = r.captured + 1;
                },
                LeadKind::Invalid => {
                    r.invalid = r.invalid + 1;
                },
                LeadKind::Duplicate => {
                    r.duplicate = r.duplicate + 1;
                },
                LeadKind::Reinquiry => {
                    r.reinquiry = r.reinquiry + 1;
                },
                LeadKind::Uncaptured => {
                    r.uncaptured = r.uncaptured + 1;
                },
            }
        }
        i += 1;
    }
    assert(all.take(i as int) =~= all);
    r
}

/// The ads of leads, in order and each once.
pub open spec fn ads_in(v: Seq<(Seq<char>, LeadKind)>) -> Seq<Seq<char>> {
    sorted_set(v.map_values(|p: (Seq<char>, LeadKind)| p.0))
}

/// Counts the leads of the days of each ad by their kinds.
pub fn per_ad(
    leads: &Vec<LeadRow>,
    crm: &Json,
    contacts: &Vec<ContactRow>,
    rows: &Vec<AdsDailyRow>,
    w: &Window,
) -> (r: Vec<(String, Segmentation)>)
    ensures
        ({
            let v = kinds_of(
                leads_view(leads@),
                tickets_in(crm@),
                contacts_view(contacts@),
                ads_view(rows@),
                w@,
            );
            &&& r@.len() == ads_in(v).len()
            &&& forall|i: int|
                0 <= i < r@.len() ==> (#[trigger] r@[i]).0@ == ads_in(v)[i] && is_split(
                    r@[i].1,
                    v,
                    seq![ads_in(v)[i]],
                )
        }),
{
    let sorted = classify(leads, crm, contacts, rows, w);
    let ghost v = kinds_view(sorted@);
    let ghost names = v.map_values(|p: (Seq<char>, LeadKind)| p.0);
    let mut ads: Vec<String> = Vec::new();
    let mut i: usize = 0;
    assert(views(ads@) =~= names.take(0));
    while i < sorted.len()
        invariant
            i <= sorted@.len(),
            v == kinds_view(sorted@),
            names == v.map_values(|p: (Seq<char>, LeadKind)| p.0),
            views(ads@) == names.take(i as int),
        decreases sorted.len() - i,
    {
        assert(v[i as int] == (sorted@[i as int].ad_id@, sorted@[i as int].kind));
        assert(names.take(i + 1) =~= names.take(i as int).push(names[i as int]));
        push_text(&mut ads, sorted[i].ad_id.clone());
        i += 1;
    }
    assert(names.take(i as int) =~= names);
    let set_of = sort_set(&ads);
    let mut out: Vec<(String, Segmentation)> = Vec::new();
    let mut k: usize = 0;
    while k < set_of.len()
        invariant
            k <= set_of@.len(),
            v == kinds_view(sorted@),
            views(set_of@) == ads_in(v),
            out@.len() == k,
            forall|j: int|
                0 <= j < k ==> (#[trigger] out@[j]).0@ == ads_in(v)[j] && is_split(
                    out@[j].1,
                    v,
                    seq![ads_in(v)[j]],
                ),
        decreases set_of.len() - k,
    {
        let mut one: Vec<String> = Vec::new();
        one.push(set_of[k].clone());
        assert(views(one@) =~= seq![ads_in(v)[k as int]]);
        let s = split(&sorted, &one);
        out.push((set_of[k].clone(), s));
        k += 1;
    }
    assert(views(set_of@).len() == set_of@.len());
    out
}

} // verus!
