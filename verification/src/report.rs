//! The report on creatives: which ads share one, what it brought, and how that is shown.

use crate::crm::{holds_nothing, is_empty, tickets_in};
use crate::dates::{day_of, parse_day};
use crate::error::Error;
use crate::schema::{
    contacts_view, leads_view, rows_view, ContactRow, ContactRowV, CreativeCard, CreativeReport,
    CreativeRow, CreativeRowV, LeadRow, LeadRowV, ProductSection, ReportSource, ReportWindow,
    CREATIVE_REPORT_SCHEMA,
};
use crate::sets::{sort_set, sorted_set};
use crate::snapshot::{Snapshot, SnapshotV};
use crate::strs::{cat2, opt_view, push_text, same, views};
use crate::window::{window, window_of};
use ads::{
    ads_of, facts_of, fits, lemma_facts_fit, list_ads, list_facts, list_of_ads, list_tickets,
    pick_between, rows_between, rows_total, tickets_of, unattributed_of, Ad, AdV,
};
use card::{card_of, cards_view, into_card, is_shown, Book, BookV, CardV};
use segmentation::{classify, kinds_of};
use vstd::prelude::*;

pub mod ads;
pub mod card;
pub mod cross;
pub mod exec;
pub mod group;
pub mod html;
pub mod img;
pub mod laws;
pub mod markup;
pub mod output;
pub mod sections;
pub mod segmentation;
pub mod specs;
pub mod summary;
pub mod table;
pub mod targeting;

verus! {

/// How many days a report covers: one at least.
pub open spec fn days_of(days: nat) -> nat {
    if days == 0 {
        1
    } else {
        days
    }
}

pub open spec fn creatives_in(s: SnapshotV) -> Seq<CreativeRowV> {
    match s.creatives {
        Some(f) => f.rows,
        None => Seq::empty(),
    }
}

/// What the cards of a report on a snapshot are made of; `m` has the leads of each of its rows.
pub open spec fn book_of(
    s: SnapshotV,
    leads: Seq<LeadRowV>,
    contacts: Seq<ContactRowV>,
    m: Seq<u64>,
    days: nat,
) -> BookV {
    let w = window_of(s.date, days)->0;
    let picked = rows_between(s.ads_daily, w);
    let ads = ads_of(s.ads_daily, picked, creatives_in(s));
    let tickets = tickets_in(s.crm);
    BookV {
        rows: s.ads_daily,
        picked,
        ads,
        facts: facts_of(s.ads_daily, picked, m, ads),
        tickets: tickets_of(tickets, ads, w),
        adsets: s.adsets,
        first: day_of(s.date)->0 - days_of(days),
        days: days_of(days),
        leads: kinds_of(leads, tickets, contacts, s.ads_daily, w),
    }
}

// Sections

pub open spec fn products_in(ads: Seq<AdV>) -> Seq<Seq<char>> {
    ads.map_values(|a: AdV| a.product)
}

/// The keys of the groups of a product.
pub open spec fn keys_in(ads: Seq<AdV>, product: Seq<char>) -> Seq<Seq<char>>
    decreases ads.len(),
{
    if ads.len() == 0 {
        Seq::empty()
    } else {
        let before = keys_in(ads.drop_last(), product);
        if ads.last().product == product {
            before.push(ads.last().key)
        } else {
            before
        }
    }
}

/// The cards of a product and of keys that delivered or brought anything.
pub open spec fn cards_of(b: BookV, product: Seq<char>, keys: Seq<Seq<char>>) -> Seq<CardV>
    decreases keys.len(),
{
    if keys.len() == 0 {
        Seq::empty()
    } else {
        let before = cards_of(b, product, keys.drop_last());
        let c = card_of(b, product, keys.last());
        if is_shown(c) {
            before.push(c)
        } else {
            before
        }
    }
}

#[verifier::ext_equal]
pub struct SectionV {
    pub product: Seq<char>,
    pub creatives: Seq<CardV>,
}

impl View for ProductSection {
    type V = SectionV;

    open spec fn view(&self) -> SectionV {
        SectionV { product: self.product@, creatives: cards_view(self.creatives@) }
    }
}

pub open spec fn sections_view(v: Seq<ProductSection>) -> Seq<SectionV> {
    v.map_values(|s: ProductSection| s@)
}

/// The sections of products that have a card.
pub open spec fn sections_of(b: BookV, products: Seq<Seq<char>>) -> Seq<SectionV>
    decreases products.len(),
{
    if products.len() == 0 {
        Seq::empty()
    } else {
        let before = sections_of(b, products.drop_last());
        let p = products.last();
        let cards = cards_of(b, p, sorted_set(keys_in(b.ads, p)));
        if cards.len() > 0 {
            before.push(SectionV { product: p, creatives: cards })
        } else {
            before
        }
    }
}

fn list_keys(ads: &Vec<Ad>, product: &str) -> (r: Vec<String>)
    ensures
        views(r@) == sorted_set(keys_in(list_of_ads(ads@), product@)),
{
    let ghost all = list_of_ads(ads@);
    let mut out: Vec<String> = Vec::new();
    let mut i: usize = 0;
    assert(views(out@) =~= Seq::empty());
    assert(all.take(0) =~= Seq::empty());
    while i < ads.len()
        invariant
            i <= ads@.len(),
            all == list_of_ads(ads@),
            views(out@) == keys_in(all.take(i as int), product@),
        decreases ads.len() - i,
    {
        assert(all.take(i + 1).drop_last() =~= all.take(i as int));
        assert(all[i as int] == ads@[i as int]@);
        if same(ads[i].product.as_str(), product) {
            push_text(&mut out, ads[i].key.clone());
        }
        i += 1;
    }
    assert(all.take(i as int) =~= all);
    sort_set(&out)
}

fn list_products(ads: &Vec<Ad>) -> (r: Vec<String>)
    ensures
        views(r@) == sorted_set(products_in(list_of_ads(ads@))),
{
    let ghost want = products_in(list_of_ads(ads@));
    let mut out: Vec<String> = Vec::new();
    let mut i: usize = 0;
    assert(views(out@) =~= want.take(0));
    while i < ads.len()
        invariant
            i <= ads@.len(),
            want == products_in(list_of_ads(ads@)),
            views(out@) == want.take(i as int),
        decreases ads.len() - i,
    {
        assert(list_of_ads(ads@)[i as int] == ads@[i as int]@);
        assert(want.take(i + 1) =~= want.take(i as int).push(want[i as int]));
        push_text(&mut out, ads[i].product.clone());
        i += 1;
    }
    assert(want.take(i as int) =~= want);
    sort_set(&out)
}

fn list_cards(b: &Book, product: &str) -> (r: Vec<CreativeCard>)
    requires
        b.wf(),
    ensures
        cards_view(r@) == cards_of(b@, product@, sorted_set(keys_in(b@.ads, product@))),
{
    let keys = list_keys(&b.ads, product);
    let ghost all = views(keys@);
    let mut out: Vec<CreativeCard> = Vec::new();
    let mut i: usize = 0;
    assert(cards_view(out@) =~= Seq::empty());
    assert(all.take(0) =~= Seq::empty());
    while i < keys.len()
        invariant
            i <= keys@.len(),
            b.wf(),
            all == views(keys@),
            cards_view(out@) == cards_of(b@, product@, all.take(i as int)),
        decreases keys.len() - i,
    {
        assert(all.take(i + 1).drop_last() =~= all.take(i as int));
        assert(all[i as int] == keys@[i as int]@);
        let c = into_card(b, product, keys[i].as_str());
        assert(c@.funnel.len() == 7);
        assert(c@.funnel[3] == (c.funnel@[3].stage@, c.funnel@[3].count as nat));
        if c.delivery.impressions > 0 || c.delivery.m_leads > 0 || c.funnel[3].count > 0 {
            assert(is_shown(c@));
            assert(cards_view(out@.push(c)) =~= cards_view(out@).push(c@));
            out.push(c);
        }
        i += 1;
    }
    assert(all.take(i as int) =~= all);
    out
}

fn list_sections(b: &Book) -> (r: Vec<ProductSection>)
    requires
        b.wf(),
    ensures
        sections_view(r@) == sections_of(b@, sorted_set(products_in(b@.ads))),
{
    let products = list_products(&b.ads);
    let ghost all = views(products@);
    let mut out: Vec<ProductSection> = Vec::new();
    let mut i: usize = 0;
    assert(sections_view(out@) =~= Seq::empty());
    assert(all.take(0) =~= Seq::empty());
    while i < products.len()
        invariant
            i <= products@.len(),
            b.wf(),
            all == views(products@),
            sections_view(out@) == sections_of(b@, all.take(i as int)),
        decreases products.len() - i,
    {
        assert(all.take(i + 1).drop_last() =~= all.take(i as int));
        assert(all[i as int] == products@[i as int]@);
        let creatives = list_cards(b, products[i].as_str());
        assert(cards_view(creatives@).len() == creatives@.len());
        if creatives.len() > 0 {
            let s = ProductSection { product: products[i].clone(), creatives };
            assert(s@ =~= SectionV {
                product: all[i as int],
                creatives: cards_view(creatives@),
            });
            assert(sections_view(out@.push(s)) =~= sections_view(out@).push(s@));
            out.push(s);
        }
        i += 1;
    }
    assert(all.take(i as int) =~= all);
    out
}

// Reports

#[verifier::ext_equal]
pub struct ReportV {
    pub schema: Seq<char>,
    pub workspace_id: Seq<char>,
    pub report_date: Seq<char>,
    pub since: Seq<char>,
    pub until: Seq<char>,
    pub generated_at: Seq<char>,
    pub snapshot_date: Seq<char>,
    pub crm_present: bool,
    pub creatives_schema: Option<Seq<char>>,
    pub unattributed_l_leads: nat,
    pub products: Seq<SectionV>,
}

impl View for CreativeReport {
    type V = ReportV;

    open spec fn view(&self) -> ReportV {
        ReportV {
            schema: self.schema@,
            workspace_id: self.workspace_id@,
            report_date: self.report_date@,
            since: self.window.since@,
            until: self.window.until@,
            generated_at: self.generated_at@,
            snapshot_date: self.source.snapshot_date@,
            crm_present: self.source.crm_present,
            creatives_schema: opt_view(self.source.creatives_schema),
            unattributed_l_leads: self.unattributed_l_leads as nat,
            products: sections_view(self.products@),
        }
    }
}

/// The report on a snapshot. The cards of a product stand in the order of their keys.
pub open spec fn report_of(
    s: SnapshotV,
    leads: Seq<LeadRowV>,
    contacts: Seq<ContactRowV>,
    workspace_id: Seq<char>,
    generated_at: Seq<char>,
    m: Seq<u64>,
    days: nat,
) -> ReportV {
    let w = window_of(s.date, days)->0;
    let b = book_of(s, leads, contacts, m, days);
    ReportV {
        schema: CREATIVE_REPORT_SCHEMA@,
        workspace_id,
        report_date: s.date,
        since: w.since,
        until: w.until,
        generated_at,
        snapshot_date: s.date,
        crm_present: !holds_nothing(s.crm),
        creatives_schema: match s.creatives {
            Some(f) => Some(f.schema),
            None => None,
        },
        unattributed_l_leads: unattributed_of(tickets_in(s.crm), b.ads, w),
        products: sections_of(b, sorted_set(products_in(b.ads))),
    }
}

/// Makes the report on a snapshot; `m` has the leads of each of its rows. It reads no clock and
/// no file.
pub fn build(
    snap: &Snapshot,
    leads: &Vec<LeadRow>,
    contacts: &Vec<ContactRow>,
    workspace_id: &str,
    generated_at: &str,
    window_days: u32,
    m: &Vec<u64>,
) -> (r: Result<CreativeReport, Error>)
    requires
        m@.len() == snap.ads_daily@.len(),
        fits(rows_total(snap@.ads_daily, m@)),
    ensures
        match r {
            Ok(report) => window_of(snap@.date, window_days as nat) is Some && report@ == report_of(
                snap@,
                leads_view(leads@),
                contacts_view(contacts@),
                workspace_id@,
                generated_at@,
                m@,
                window_days as nat,
            ),
            Err(e) => window_of(snap@.date, window_days as nat) is None && (e matches Error::Config(t)
                && t@ == "bad snapshot date "@ + snap@.date),
        },
{
    let w = match window(snap.date.as_str(), window_days) {
        Some(w) => w,
        None => {
            return Err(Error::Config(cat2("bad snapshot date ", snap.date.as_str())));
        },
    };
    let day: i32 = match parse_day(snap.date.as_str()) {
        Some(d) => d,
        None => {
            return Err(Error::Config(cat2("bad snapshot date ", snap.date.as_str())));
        },
    };
    let days: u32 = if window_days == 0 {
        1
    } else {
        window_days
    };
    let none: Vec<CreativeRow> = Vec::new();
    assert(rows_view(none@) =~= Seq::empty());
    let creatives = match &snap.creatives {
        Some(f) => &f.rows,
        None => &none,
    };
    let ghost b = book_of(
        snap@,
        leads_view(leads@),
        contacts_view(contacts@),
        m@,
        window_days as nat,
    );
    let picked = pick_between(&snap.ads_daily, &w);
    let list = list_ads(&snap.ads_daily, &picked, creatives);
    assert(list_of_ads(list@) == b.ads);
    let facts = list_facts(&snap.ads_daily, &picked, m, &list);
    let (tickets, unattributed) = list_tickets(&snap.crm, &list, &w);
    let sorted = classify(leads, &snap.crm, contacts, &snap.ads_daily, &w);
    proof {
        lemma_facts_fit(snap@.ads_daily, w@, m@, b.ads);
    }
    let book = Book {
        rows: &snap.ads_daily,
        picked,
        ads: list,
        facts,
        tickets,
        adsets: &snap.adsets,
        first: day as i64 - days as i64,
        days,
        leads: sorted,
    };
    assert(book@ =~= b);
    let products = list_sections(&book);
    Ok(
        CreativeReport {
            schema: CREATIVE_REPORT_SCHEMA.to_owned(),
            workspace_id: workspace_id.to_owned(),
            report_date: snap.date.clone(),
            window: ReportWindow { since: w.since, until: w.until },
            generated_at: generated_at.to_owned(),
            source: ReportSource {
                snapshot_date: snap.date.clone(),
                crm_present: !is_empty(&snap.crm),
                creatives_schema: match &snap.creatives {
                    Some(f) => Some(f.schema.clone()),
                    None => None,
                },
            },
            unattributed_l_leads: unattributed,
            products,
        },
    )
}

} // verus!
