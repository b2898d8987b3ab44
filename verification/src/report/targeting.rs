//! What the targetings of a product brought, and what to do with them.

use crate::crm::tickets_in;
use crate::funnel::one;
use crate::report::ads::{
    fact_of, facts_of, fits, lemma_facts_fit, no_sum, pick_between, plus, rows_between, rows_total,
    total_of, within, Came, Delivered, Sum,
};
use crate::report::card::{lists_of, DeliveryV};
use crate::report::group::{base_targeting, base_targeting_of};
use crate::report::markup::{fill, filled};
use crate::report::specs::{archetype, archetype_of};
use crate::schema::{
    verdicts_view, Delivery, SevenDay, TargetingCrm, TargetingReport, Verdict, VerdictV,
};
use crate::sets::{find_text, lemma_place_of, sort_set, sorted_set};
use crate::snapshot::{ads_view, count_of, AdsDailyRow, AdsDailyRowV, Snapshot, SnapshotV};
use crate::strs::{chars_of, dec, decimal, less, lowercase_of, push_text, same, text_lt, views};
use crate::window::{
    hits_of, join_tickets, places, window, window_of, Hit, Window, WindowV,
};
use vstd::prelude::*;

pub mod laws;

verus! {

/// How many days verdicts look back.
pub const VERDICT_DAYS: u32 = 7;

// Rows

/// Whether a row is of a product and of a targeting.
pub open spec fn row_is(r: AdsDailyRowV, product: Seq<char>, targeting: Seq<char>) -> bool {
    r._product == product && base_targeting_of(r.adset_name) == targeting
}

fn is_row(r: &AdsDailyRow, product: &str, targeting: &str) -> (b: bool)
    ensures
        b == row_is(r@, product@, targeting@),
{
    same(r._product.as_str(), product) && same(
        base_targeting(r.adset_name.as_str()).as_str(),
        targeting,
    )
}

/// The rows of a product and of a targeting.
pub open spec fn aim_rows(
    rows: Seq<AdsDailyRowV>,
    picked: Seq<int>,
    product: Seq<char>,
    targeting: Seq<char>,
) -> Seq<int>
    decreases picked.len(),
{
    if picked.len() == 0 {
        Seq::empty()
    } else {
        let before = aim_rows(rows, picked.drop_last(), product, targeting);
        if row_is(rows[picked.last()], product, targeting) {
            before.push(picked.last())
        } else {
            before
        }
    }
}

/// The rows from a day on.
pub open spec fn rows_from(rows: Seq<AdsDailyRowV>, idx: Seq<int>, since: Seq<char>) -> Seq<int>
    decreases idx.len(),
{
    if idx.len() == 0 {
        Seq::empty()
    } else {
        let before = rows_from(rows, idx.drop_last(), since);
        if text_lt(rows[idx.last()].date_start, since) {
            before
        } else {
            before.push(idx.last())
        }
    }
}

/// What rows delivered together; the reach is not told.
pub open spec fn sum_at(rows: Seq<AdsDailyRowV>, m: Seq<u64>, idx: Seq<int>) -> Sum
    decreases idx.len(),
{
    if idx.len() == 0 {
        no_sum()
    } else {
        let i = idx.last();
        plus(sum_at(rows, m, idx.drop_last()), fact_of(rows[i], m[i], Seq::empty()))
    }
}

proof fn lemma_aim_within(
    rows: Seq<AdsDailyRowV>,
    m: Seq<u64>,
    picked: Seq<int>,
    product: Seq<char>,
    targeting: Seq<char>,
)
    ensures
        within(
            sum_at(rows, m, aim_rows(rows, picked, product, targeting)),
            sum_at(rows, m, picked),
        ),
    decreases picked.len(),
{
    if picked.len() > 0 {
        lemma_aim_within(rows, m, picked.drop_last(), product, targeting);
        let before = aim_rows(rows, picked.drop_last(), product, targeting);
        assert(before.push(picked.last()).drop_last() =~= before);
    }
}

proof fn lemma_from_within(rows: Seq<AdsDailyRowV>, m: Seq<u64>, idx: Seq<int>, since: Seq<char>)
    ensures
        within(sum_at(rows, m, rows_from(rows, idx, since)), sum_at(rows, m, idx)),
    decreases idx.len(),
{
    if idx.len() > 0 {
        lemma_from_within(rows, m, idx.drop_last(), since);
        let before = rows_from(rows, idx.drop_last(), since);
        assert(before.push(idx.last()).drop_last() =~= before);
    }
}

proof fn lemma_sum_is_total(rows: Seq<AdsDailyRowV>, m: Seq<u64>, picked: Seq<int>)
    ensures
        sum_at(rows, m, picked) == total_of(facts_of(rows, picked, m, Seq::empty())),
    decreases picked.len(),
{
    if picked.len() > 0 {
        lemma_sum_is_total(rows, m, picked.drop_last());
        let facts = facts_of(rows, picked, m, Seq::empty());
        assert(facts.drop_last() =~= facts_of(rows, picked.drop_last(), m, Seq::empty()));
    }
}

proof fn lemma_sum_grows(rows: Seq<AdsDailyRowV>, m: Seq<u64>, idx: Seq<int>, n: int)
    requires
        0 <= n <= idx.len(),
    ensures
        within(sum_at(rows, m, idx.take(n)), sum_at(rows, m, idx)),
    decreases idx.len() - n,
{
    if n < idx.len() {
        lemma_sum_grows(rows, m, idx, n + 1);
        assert(idx.take(n + 1).drop_last() =~= idx.take(n));
    } else {
        assert(idx.take(n) =~= idx);
    }
}

fn list_aim(
    rows: &Vec<AdsDailyRow>,
    picked: &Vec<usize>,
    product: &str,
    targeting: &str,
) -> (r: Vec<usize>)
    requires
        forall|k: int| 0 <= k < picked@.len() ==> (#[trigger] picked@[k]) < rows@.len(),
    ensures
        places(r@) == aim_rows(ads_view(rows@), places(picked@), product@, targeting@),
        forall|k: int| 0 <= k < r@.len() ==> (#[trigger] r@[k]) < rows@.len(),
{
    let ghost all = places(picked@);
    let mut out: Vec<usize> = Vec::new();
    let mut k: usize = 0;
    assert(places(out@) =~= Seq::empty());
    assert(all.take(0) =~= Seq::empty());
    while k < picked.len()
        invariant
            k <= picked@.len(),
            all == places(picked@),
            forall|j: int| 0 <= j < picked@.len() ==> (#[trigger] picked@[j]) < rows@.len(),
            places(out@) == aim_rows(ads_view(rows@), all.take(k as int), product@, targeting@),
            forall|j: int| 0 <= j < out@.len() ==> (#[trigger] out@[j]) < rows@.len(),
        decreases picked.len() - k,
    {
        assert(all.take(k + 1).drop_last() =~= all.take(k as int));
        let i: usize = picked[k];
        assert(all[k as int] == i);
        assert(ads_view(rows@)[i as int] == rows@[i as int]@);
        if is_row(&rows[i], product, targeting) {
            assert(places(out@.push(i)) =~= places(out@).push(i as int));
            out.push(i);
        }
        k += 1;
    }
    assert(all.take(k as int) =~= all);
    out
}

fn list_from(rows: &Vec<AdsDailyRow>, idx: &Vec<usize>, since: &str) -> (r: Vec<usize>)
    requires
        forall|k: int| 0 <= k < idx@.len() ==> (#[trigger] idx@[k]) < rows@.len(),
    ensures
        places(r@) == rows_from(ads_view(rows@), places(idx@), since@),
        forall|k: int| 0 <= k < r@.len() ==> (#[trigger] r@[k]) < rows@.len(),
{
    let ghost all = places(idx@);
    let mut out: Vec<usize> = Vec::new();
    let mut k: usize = 0;
    assert(places(out@) =~= Seq::empty());
    assert(all.take(0) =~= Seq::empty());
    while k < idx.len()
        invariant
            k <= idx@.len(),
            all == places(idx@),
            forall|j: int| 0 <= j < idx@.len() ==> (#[trigger] idx@[j]) < rows@.len(),
            places(out@) == rows_from(ads_view(rows@), all.take(k as int), since@),
            forall|j: int| 0 <= j < out@.len() ==> (#[trigger] out@[j]) < rows@.len(),
        decreases idx.len() - k,
    {
        assert(all.take(k + 1).drop_last() =~= all.take(k as int));
        let i: usize = idx[k];
        assert(all[k as int] == i);
        assert(ads_view(rows@)[i as int] == rows@[i as int]@);
        if !less(rows[i].date_start.as_str(), since) {
            assert(places(out@.push(i)) =~= places(out@).push(i as int));
            out.push(i);
        }
        k += 1;
    }
    assert(all.take(k as int) =~= all);
    out
}

fn sum_rows(rows: &Vec<AdsDailyRow>, m: &Vec<u64>, idx: &Vec<usize>) -> (r: Delivered)
    requires
        m@.len() == rows@.len(),
        forall|k: int| 0 <= k < idx@.len() ==> (#[trigger] idx@[k]) < rows@.len(),
        fits(sum_at(ads_view(rows@), m@, places(idx@))),
    ensures
        r@ == sum_at(ads_view(rows@), m@, places(idx@)),
{
    let ghost all = places(idx@);
    let ghost ads = ads_view(rows@);
    let mut r = Delivered { impressions: 0, reach: 0, clicks: 0, m_leads: 0 };
    let mut k: usize = 0;
    assert(all.take(0) =~= Seq::empty());
    while k < idx.len()
        invariant
            k <= idx@.len(),
            all == places(idx@),
            ads == ads_view(rows@),
            m@.len() == rows@.len(),
            forall|j: int| 0 <= j < idx@.len() ==> (#[trigger] idx@[j]) < rows@.len(),
            fits(sum_at(ads, m@, all)),
            r@ == sum_at(ads, m@, all.take(k as int)),
        decreases idx.len() - k,
    {
        assert(all.take(k + 1).drop_last() =~= all.take(k as int));
        let i: usize = idx[k];
        assert(all[k as int] == i);
        assert(ads[i as int] == rows@[i as int]@);
        proof {
            lemma_sum_grows(ads, m@, all, k + 1);
        }
        let f = fact_of_row(&rows[i], m[i]);
        assert(sum_at(ads, m@, all.take(k + 1)) == plus(
            r@,
            fact_of(ads[i as int], m@[i as int], Seq::empty()),
        ));
        r = Delivered {
            impressions: r.impressions + f.impressions,
            reach: r.reach + f.reach,
            clicks: r.clicks + f.clicks,
            m_leads: r.m_leads + f.m_leads,
        };
        k += 1;
    }
    assert(all.take(k as int) =~= all);
    r
}

fn fact_of_row(r: &AdsDailyRow, m: u64) -> (d: Delivered)
    ensures
        d@ == plus(no_sum(), fact_of(r@, m, Seq::empty())),
{
    Delivered {
        impressions: count_of(r.impressions.as_str()),
        reach: count_of(r.reach.as_str()),
        clicks: count_of(r.inline_link_clicks.as_str()),
        m_leads: m,
    }
}

// Tickets

/// How many of the tickets are of a targeting, and how far they came.
pub open spec fn aim_came(
    hits: Seq<Hit>,
    rows: Seq<AdsDailyRowV>,
    product: Seq<char>,
    targeting: Seq<char>,
) -> Came
    decreases hits.len(),
{
    if hits.len() == 0 {
        Came { l_leads: 0, qualified: 0, visit: 0, booking: 0 }
    } else {
        let before = aim_came(hits.drop_last(), rows, product, targeting);
        let h = hits.last();
        if row_is(rows[h.row as int], product, targeting) {
            Came {
                l_leads: before.l_leads + 1,
                qualified: before.qualified + one(h.qualified),
                visit: before.visit + one(h.visit),
                booking: before.booking + one(h.booking),
            }
        } else {
            before
        }
    }
}

/// How many of the tickets of a targeting are recent.
pub open spec fn aim_recent(
    hits: Seq<Hit>,
    rows: Seq<AdsDailyRowV>,
    product: Seq<char>,
    targeting: Seq<char>,
) -> nat
    decreases hits.len(),
{
    if hits.len() == 0 {
        0
    } else {
        let h = hits.last();
        aim_recent(hits.drop_last(), rows, product, targeting) + if row_is(
            rows[h.row as int],
            product,
            targeting,
        ) && h.recent {
            1nat
        } else {
            0
        }
    }
}

proof fn lemma_aim_bounds(
    hits: Seq<Hit>,
    rows: Seq<AdsDailyRowV>,
    product: Seq<char>,
    targeting: Seq<char>,
)
    ensures
        ({
            let c = aim_came(hits, rows, product, targeting);
            c.l_leads <= hits.len() && c.qualified <= c.l_leads && c.visit <= c.l_leads && c.booking
                <= c.l_leads
        }),
        aim_recent(hits, rows, product, targeting) <= hits.len(),
    decreases hits.len(),
{
    if hits.len() > 0 {
        lemma_aim_bounds(hits.drop_last(), rows, product, targeting);
    }
}

fn bit(b: bool) -> (r: u64)
    ensures
        r == one(b),
{
    if b {
        1
    } else {
        0
    }
}

fn count_hits(
    hits: &Vec<Hit>,
    rows: &Vec<AdsDailyRow>,
    product: &str,
    targeting: &str,
) -> (r: (TargetingCrm, u64))
    requires
        forall|k: int| 0 <= k < hits@.len() ==> (#[trigger] hits@[k]).row < rows@.len(),
    ensures
        r.0@ == aim_came(hits@, ads_view(rows@), product@, targeting@),
        r.1 == aim_recent(hits@, ads_view(rows@), product@, targeting@),
{
    let ghost ads = ads_view(rows@);
    let mut c = TargetingCrm { l_leads: 0, qualified: 0, visit: 0, booking: 0 };
    let mut recent: u64 = 0;
    let mut i: usize = 0;
    assert(hits@.take(0) =~= Seq::empty());
    while i < hits.len()
        invariant
            i <= hits@.len(),
            ads == ads_view(rows@),
            forall|k: int| 0 <= k < hits@.len() ==> (#[trigger] hits@[k]).row < rows@.len(),
            c@ == aim_came(hits@.take(i as int), ads, product@, targeting@),
            recent == aim_recent(hits@.take(i as int), ads, product@, targeting@),
        decreases hits.len() - i,
    {
        assert(hits@.take(i + 1).drop_last() =~= hits@.take(i as int));
        let h = hits[i];
        assert(ads[h.row as int] == rows@[h.row as int]@);
        proof {
            lemma_aim_bounds(hits@.take(i as int), ads, product@, targeting@);
        }
        if is_row(&rows[h.row], product, targeting) {
            c = TargetingCrm {
                l_leads: c.l_leads + 1,
                qualified: c.qualified + bit(h.qualified),
                visit: c.visit + bit(h.visit),
                booking: c.booking + bit(h.booking),
            };
            recent = recent + bit(h.recent);
        }
        i += 1;
    }
    assert(hits@.take(i as int) =~= hits@);
    (c, recent)
}

// Targetings

/// The ad sets of rows, each once, as they come.
pub open spec fn adsets_of(rows: Seq<AdsDailyRowV>, idx: Seq<int>) -> Seq<Seq<char>>
    decreases idx.len(),
{
    if idx.len() == 0 {
        Seq::empty()
    } else {
        let before = adsets_of(rows, idx.drop_last());
        let a = rows[idx.last()].adset_id;
        if a.len() > 0 && !before.contains(a) {
            before.push(a)
        } else {
            before
        }
    }
}

fn list_adsets(rows: &Vec<AdsDailyRow>, idx: &Vec<usize>) -> (r: Vec<String>)
    requires
        forall|k: int| 0 <= k < idx@.len() ==> (#[trigger] idx@[k]) < rows@.len(),
    ensures
        views(r@) == adsets_of(ads_view(rows@), places(idx@)),
{
    let ghost all = places(idx@);
    let mut out: Vec<String> = Vec::new();
    let mut k: usize = 0;
    assert(views(out@) =~= Seq::empty());
    assert(all.take(0) =~= Seq::empty());
    while k < idx.len()
        invariant
            k <= idx@.len(),
            all == places(idx@),
            forall|j: int| 0 <= j < idx@.len() ==> (#[trigger] idx@[j]) < rows@.len(),
            views(out@) == adsets_of(ads_view(rows@), all.take(k as int)),
        decreases idx.len() - k,
    {
        assert(all.take(k + 1).drop_last() =~= all.take(k as int));
        let i: usize = idx[k];
        assert(all[k as int] == i);
        assert(ads_view(rows@)[i as int] == rows@[i as int]@);
        let a = rows[i].adset_id.as_str();
        proof {
            lemma_place_of(views(out@), a@);
        }
        if chars_of(a).len() > 0 && find_text(&out, a) >= out.len() {
            push_text(&mut out, a.to_owned());
        }
        k += 1;
    }
    assert(all.take(k as int) =~= all);
    out
}

#[verifier::ext_equal]
pub struct TargetingReportV {
    pub targeting: Seq<char>,
    pub archetype: Seq<char>,
    pub adset_ids: Seq<Seq<char>>,
    pub window: DeliveryV,
    pub window_came: Came,
    pub seven_rows: Seq<int>,
    pub seven: Sum,
    pub seven_leads: nat,
    pub seven_qualified: nat,
    pub recent: nat,
}

impl View for TargetingReport {
    type V = TargetingReportV;

    open spec fn view(&self) -> TargetingReportV {
        TargetingReportV {
            targeting: self.targeting@,
            archetype: self.archetype@,
            adset_ids: views(self.adset_ids@),
            window: self.window@,
            window_came: self.window_crm@,
            seven_rows: places(self.window_7d.spend@),
            seven: Sum {
                impressions: self.window_7d.impressions as nat,
                reach: 0,
                clicks: self.window_7d.clicks as nat,
                m_leads: self.window_7d.m_leads as nat,
            },
            seven_leads: self.window_7d.l_leads as nat,
            seven_qualified: self.window_7d.qualified as nat,
            recent: self.recent_l_72h as nat,
        }
    }
}

pub open spec fn targetings_view(v: Seq<TargetingReport>) -> Seq<TargetingReportV> {
    v.map_values(|t: TargetingReport| t@)
}

pub open spec fn without_reach(s: Sum) -> Sum {
    Sum { impressions: s.impressions, reach: 0, clicks: s.clicks, m_leads: s.m_leads }
}

/// What targetings are judged by: the rows of seven days, and the tickets of them and of the days
/// of the report.
#[verifier::ext_equal]
pub struct AimV {
    pub rows: Seq<AdsDailyRowV>,
    pub m: Seq<u64>,
    pub picked: Seq<int>,
    pub since: Seq<char>,
    pub seven_hits: Seq<Hit>,
    pub window_hits: Seq<Hit>,
}

/// The part of seven days that lies in the days of the report.
pub open spec fn overlap(w: WindowV, seven: WindowV) -> WindowV {
    WindowV {
        since: w.since,
        until: w.until,
        from: if w.from < seven.from {
            seven.from
        } else {
            w.from
        },
        to: w.to,
        lag: w.lag,
    }
}

pub open spec fn aim_of(s: SnapshotV, m: Seq<u64>, w: WindowV, seven: WindowV) -> AimV {
    let picked = rows_between(s.ads_daily, seven);
    let tickets = tickets_in(s.crm);
    AimV {
        rows: s.ads_daily,
        m,
        picked,
        since: w.since,
        seven_hits: hits_of(tickets, s.ads_daily, picked, seven),
        window_hits: hits_of(tickets, s.ads_daily, picked, overlap(w, seven)),
    }
}

/// What a targeting of a product brought.
pub open spec fn targeting_of(a: AimV, product: Seq<char>, t: Seq<char>) -> TargetingReportV {
    let idx = aim_rows(a.rows, a.picked, product, t);
    let recent_rows = rows_from(a.rows, idx, a.since);
    let c = aim_came(a.seven_hits, a.rows, product, t);
    TargetingReportV {
        targeting: t,
        archetype: archetype_of(lowercase_of(t)),
        adset_ids: adsets_of(a.rows, idx),
        window: DeliveryV {
            spend: seq![recent_rows],
            sum: without_reach(sum_at(a.rows, a.m, recent_rows)),
        },
        window_came: aim_came(a.window_hits, a.rows, product, t),
        seven_rows: idx,
        seven: without_reach(sum_at(a.rows, a.m, idx)),
        seven_leads: c.l_leads,
        seven_qualified: c.qualified,
        recent: aim_recent(a.seven_hits, a.rows, product, t),
    }
}

/// The targetings of the rows of a product.
pub open spec fn targetings_in(
    rows: Seq<AdsDailyRowV>,
    picked: Seq<int>,
    product: Seq<char>,
) -> Seq<Seq<char>>
    decreases picked.len(),
{
    if picked.len() == 0 {
        Seq::empty()
    } else {
        let before = targetings_in(rows, picked.drop_last(), product);
        let r = rows[picked.last()];
        if r._product == product {
            before.push(base_targeting_of(r.adset_name))
        } else {
            before
        }
    }
}

/// What the targetings of a product brought, in the order of their names.
pub open spec fn targetings_of(a: AimV, product: Seq<char>) -> Seq<TargetingReportV> {
    sorted_set(targetings_in(a.rows, a.picked, product)).map_values(
        |t: Seq<char>| targeting_of(a, product, t),
    )
}

fn list_names(rows: &Vec<AdsDailyRow>, picked: &Vec<usize>, product: &str) -> (r: Vec<String>)
    requires
        forall|k: int| 0 <= k < picked@.len() ==> (#[trigger] picked@[k]) < rows@.len(),
    ensures
        views(r@) == sorted_set(targetings_in(ads_view(rows@), places(picked@), product@)),
{
    let ghost all = places(picked@);
    let mut out: Vec<String> = Vec::new();
    let mut k: usize = 0;
    assert(views(out@) =~= Seq::empty());
    assert(all.take(0) =~= Seq::empty());
    while k < picked.len()
        invariant
            k <= picked@.len(),
            all == places(picked@),
            forall|j: int| 0 <= j < picked@.len() ==> (#[trigger] picked@[j]) < rows@.len(),
            views(out@) == targetings_in(ads_view(rows@), all.take(k as int), product@),
        decreases picked.len() - k,
    {
        assert(all.take(k + 1).drop_last() =~= all.take(k as int));
        let i: usize = picked[k];
        assert(all[k as int] == i);
        assert(ads_view(rows@)[i as int] == rows@[i as int]@);
        if same(rows[i]._product.as_str(), product) {
            push_text(&mut out, base_targeting(rows[i].adset_name.as_str()));
        }
        k += 1;
    }
    assert(all.take(k as int) =~= all);
    sort_set(&out)
}

fn report_targeting(
    rows: &Vec<AdsDailyRow>,
    m: &Vec<u64>,
    picked: &Vec<usize>,
    since: &str,
    seven_hits: &Vec<Hit>,
    window_hits: &Vec<Hit>,
    product: &str,
    t: &str,
) -> (r: TargetingReport)
    requires
        m@.len() == rows@.len(),
        forall|k: int| 0 <= k < picked@.len() ==> (#[trigger] picked@[k]) < rows@.len(),
        forall|k: int| 0 <= k < seven_hits@.len() ==> (#[trigger] seven_hits@[k]).row < rows@.len(),
        forall|k: int|
            0 <= k < window_hits@.len() ==> (#[trigger] window_hits@[k]).row < rows@.len(),
        fits(sum_at(ads_view(rows@), m@, places(picked@))),
    ensures
        r@ == targeting_of(
            AimV {
                rows: ads_view(rows@),
                m: m@,
                picked: places(picked@),
                since: since@,
                seven_hits: seven_hits@,
                window_hits: window_hits@,
            },
            product@,
            t@,
        ),
{
    let ghost ads = ads_view(rows@);
    let idx = list_aim(rows, picked, product, t);
    let recent_rows = list_from(rows, &idx, since);
    proof {
        lemma_aim_within(ads, m@, places(picked@), product@, t@);
        lemma_from_within(ads, m@, places(idx@), since@);
    }
    let s = sum_rows(rows, m, &idx);
    let w = sum_rows(rows, m, &recent_rows);
    let (c, recent) = count_hits(seven_hits, rows, product, t);
    let (wc, _) = count_hits(window_hits, rows, product, t);
    let adset_ids = list_adsets(rows, &idx);
    let mut spend: Vec<Vec<usize>> = Vec::new();
    spend.push(recent_rows);
    assert(lists_of(spend@) =~= seq![places(recent_rows@)]);
    TargetingReport {
        targeting: t.to_owned(),
        archetype: archetype(t),
        adset_ids,
        window: Delivery {
            spend,
            impressions: w.impressions,
            reach: 0,
            clicks: w.clicks,
            m_leads: w.m_leads,
        },
        window_crm: wc,
        window_7d: SevenDay {
            spend: idx,
            impressions: s.impressions,
            clicks: s.clicks,
            m_leads: s.m_leads,
            l_leads: c.l_leads,
            qualified: c.qualified,
        },
        recent_l_72h: recent,
    }
}

fn copy_window(w: &Window, from: i64) -> (r: Window)
    ensures
        r@ == (WindowV { from, ..w@ }),
{
    Window {
        since: w.since.clone(),
        until: w.until.clone(),
        from,
        to: w.to,
        lag: w.lag,
    }
}

/// Tells what the targetings of a product brought; `m` has the leads of each row of the snapshot.
/// There is nothing to tell where the days lie outside the calendar.
pub fn build(
    snap: &Snapshot,
    product: &str,
    window_days: u32,
    m: &Vec<u64>,
) -> (r: Option<Vec<TargetingReport>>)
    requires
        m@.len() == snap.ads_daily@.len(),
        fits(rows_total(snap@.ads_daily, m@)),
    ensures
        match (
            window_of(snap@.date, window_days as nat),
            window_of(snap@.date, VERDICT_DAYS as nat),
        ) {
            (Some(w), Some(seven)) => r matches Some(v) && targetings_view(v@) == targetings_of(
                aim_of(snap@, m@, w, seven),
                product@,
            ),
            _ => r is None,
        },
{
    let (w, seven) = match (
        window(snap.date.as_str(), window_days),
        window(snap.date.as_str(), VERDICT_DAYS),
    ) {
        (Some(a), Some(b)) => (a, b),
        _ => {
            return None;
        },
    };
    let rows = &snap.ads_daily;
    let picked = pick_between(rows, &seven);
    let from: i64 = if w.from < seven.from {
        seven.from
    } else {
        w.from
    };
    let part = copy_window(&w, from);
    assert(part@ =~= overlap(w@, seven@));
    let seven_hits = join_tickets(&snap.crm, rows, &picked, &seven);
    let window_hits = join_tickets(&snap.crm, rows, &picked, &part);
    let ghost a = aim_of(snap@, m@, w@, seven@);
    proof {
        lemma_facts_fit(snap@.ads_daily, seven@, m@, Seq::empty());
        lemma_sum_is_total(snap@.ads_daily, m@, places(picked@));
    }
    let names = list_names(rows, &picked, product);
    let ghost set_of = sorted_set(targetings_in(a.rows, a.picked, product@));
    let ghost want = targetings_of(a, product@);
    let mut out: Vec<TargetingReport> = Vec::new();
    let mut i: usize = 0;
    assert(targetings_view(out@) =~= want.take(0));
    assert(views(names@).len() == names@.len());
    while i < names.len()
        invariant
            i <= names@.len(),
            rows == &snap.ads_daily,
            m@.len() == rows@.len(),
            forall|k: int| 0 <= k < picked@.len() ==> (#[trigger] picked@[k]) < rows@.len(),
            forall|k: int|
                0 <= k < seven_hits@.len() ==> (#[trigger] seven_hits@[k]).row < rows@.len(),
            forall|k: int|
                0 <= k < window_hits@.len() ==> (#[trigger] window_hits@[k]).row < rows@.len(),
            fits(sum_at(ads_view(rows@), m@, places(picked@))),
            a == (AimV {
                rows: ads_view(rows@),
                m: m@,
                picked: places(picked@),
                since: w.since@,
                seven_hits: seven_hits@,
                window_hits: window_hits@,
            }),
            set_of == sorted_set(targetings_in(a.rows, a.picked, product@)),
            views(names@) == set_of,
            names@.len() == set_of.len(),
            want == targetings_of(a, product@),
            targetings_view(out@) == want.take(i as int),
        decreases names.len() - i,
    {
        assert(views(names@)[i as int] == names@[i as int]@);
        let t = report_targeting(
            rows,
            m,
            &picked,
            w.since.as_str(),
            &seven_hits,
            &window_hits,
            product,
            names[i].as_str(),
        );
        assert(t@ == want[i as int]);
        assert(targetings_view(out@.push(t)) =~= targetings_view(out@).push(t@));
        assert(want.take(i + 1) =~= want.take(i as int).push(want[i as int]));
        out.push(t);
        i += 1;
    }
    assert(want.take(i as int) =~= want);
    Some(out)
}

// Verdicts

/// What the money spent on a targeting in seven days says: comparisons, and amounts as they are
/// shown.
#[derive(Debug)]
pub struct VerdictFacts {
    /// Whether anything was spent.
    pub spent: bool,
    /// Whether so much was spent for so few qualified tickets that it should stop.
    pub over_table: bool,
    /// Whether so much was spent that tickets are to be expected.
    pub alarming: bool,
    /// Whether less than half as many tickets are qualified as in the product.
    pub leaking: bool,
    /// Whether a qualified ticket costs little enough.
    pub proven: bool,
    /// Whether there is room to spend more.
    pub headroom: bool,
    pub spend: String,
    pub multiple: String,
    pub own_rate: String,
    pub product_rate: String,
    pub cost: String,
    pub share: String,
}

pub open spec fn if_some(b: bool, v: VerdictV) -> Seq<VerdictV> {
    if b {
        seq![v]
    } else {
        Seq::empty()
    }
}

pub open spec fn kill_verdict(s7: SevenDay, f: VerdictFacts) -> VerdictV {
    VerdictV {
        code: "kill"@,
        label: "Kill"@,
        detail: filled(
            "Rs {} = {}x target with {} qualified in 7d"@,
            seq![f.spend@, f.multiple@, dec(s7.qualified as nat)],
        ),
    }
}

pub open spec fn zero_verdict(f: VerdictFacts) -> VerdictV {
    VerdictV {
        code: "zero_crm"@,
        label: "0 CRM"@,
        detail: filled("no CRM leads on Rs {} in 7 settled days"@, seq![f.spend@]),
    }
}

pub open spec fn learning_verdict(s7: SevenDay) -> VerdictV {
    VerdictV {
        code: "learning"@,
        label: "Learning"@,
        detail: filled("{} leads/7d - CPL not comparable yet"@, seq![dec(s7.m_leads as nat)]),
    }
}

pub open spec fn leak_verdict(f: VerdictFacts) -> VerdictV {
    VerdictV {
        code: "quality_leak"@,
        label: "Weak L>Q"@,
        detail: filled("{}% L>Q vs product {}%"@, seq![f.own_rate@, f.product_rate@]),
    }
}

pub open spec fn scale_verdict(f: VerdictFacts) -> VerdictV {
    VerdictV {
        code: "scale"@,
        label: "Scale"@,
        detail: filled("Rs {}/qualified on {}% of spend"@, seq![f.cost@, f.share@]),
    }
}

pub open spec fn wait_verdict() -> VerdictV {
    VerdictV { code: "wait"@, label: "Wait"@, detail: "no actionable signal yet"@ }
}

/// What speaks against a targeting, the weightiest first. Neither a kill nor an alarm is raised
/// while tickets of it may still move.
pub open spec fn objections(
    s7: SevenDay,
    recent: u64,
    learning: Seq<char>,
    product_leads: u64,
    product_qualified: u64,
    f: VerdictFacts,
) -> Seq<VerdictV> {
    if_some(s7.qualified <= 2 && f.over_table && recent == 0, kill_verdict(s7, f)) + if_some(
        f.alarming && s7.l_leads == 0 && recent == 0,
        zero_verdict(f),
    ) + if_some(
        learning == "FAIL"@ || (learning == "LEARNING"@ && s7.m_leads < 7),
        learning_verdict(s7),
    ) + if_some(
        s7.l_leads >= 8 && product_leads > 0 && product_qualified > 0 && f.leaking,
        leak_verdict(f),
    )
}

/// What to do with a targeting: up to two objections; else to scale it, where it has proven; else
/// to wait. Nothing is said of one on which nothing was spent.
pub open spec fn verdicts_of(
    s7: SevenDay,
    recent: u64,
    learning: Seq<char>,
    product_leads: u64,
    product_qualified: u64,
    f: VerdictFacts,
) -> Seq<VerdictV> {
    let against = objections(s7, recent, learning, product_leads, product_qualified, f);
    if !f.spent {
        Seq::empty()
    } else if against.len() > 2 {
        against.take(2)
    } else if against.len() > 0 {
        against
    } else if s7.qualified >= 2 && f.proven && f.headroom && learning != "FAIL"@ {
        seq![scale_verdict(f)]
    } else {
        seq![wait_verdict()]
    }
}

fn chip(code: &str, label: &str, detail: String) -> (r: Verdict)
    ensures
        r@ == (VerdictV { code: code@, label: label@, detail: detail@ }),
{
    Verdict { code: code.to_owned(), label: label.to_owned(), detail }
}

fn push_chip(out: &mut Vec<Verdict>, v: Verdict)
    ensures
        verdicts_view(final(out)@) == verdicts_view(old(out)@) + seq![v@],
{
    assert(verdicts_view(out@.push(v)) =~= verdicts_view(out@) + seq![v@]);
    out.push(v);
}

/// Judges a targeting.
pub fn verdicts(
    s7: &SevenDay,
    recent: u64,
    learning: &str,
    product_leads: u64,
    product_qualified: u64,
    f: &VerdictFacts,
) -> (r: Vec<Verdict>)
    ensures
        verdicts_view(r@) == verdicts_of(
            *s7,
            recent,
            learning@,
            product_leads,
            product_qualified,
            *f,
        ),
        r@.len() <= 2,
{
    let mut out: Vec<Verdict> = Vec::new();
    assert(verdicts_view(out@) =~= Seq::empty());
    if !f.spent {
        return out;
    }
    let ghost none = Seq::<VerdictV>::empty();
    let q = decimal(s7.qualified);
    if s7.qualified <= 2 && f.over_table && recent == 0 {
        let detail = fill(
            "Rs {} = {}x target with {} qualified in 7d",
            &vec![f.spend.as_str(), f.multiple.as_str(), q.as_str()],
        );
        push_chip(&mut out, chip("kill", "Kill", detail));
    }
    let ghost first = if_some(
        s7.qualified <= 2 && f.over_table && recent == 0,
        kill_verdict(*s7, *f),
    );
    assert(verdicts_view(out@) =~= first);
    if f.alarming && s7.l_leads == 0 && recent == 0 {
        let detail = fill("no CRM leads on Rs {} in 7 settled days", &vec![f.spend.as_str()]);
        push_chip(&mut out, chip("zero_crm", "0 CRM", detail));
    }
    let ghost second = first + if_some(
        f.alarming && s7.l_leads == 0 && recent == 0,
        zero_verdict(*f),
    );
    assert(verdicts_view(out@) =~= second);
    let failing = same(learning, "FAIL");
    if failing || (same(learning, "LEARNING") && s7.m_leads < 7) {
        let m = decimal(s7.m_leads);
        let detail = fill("{} leads/7d - CPL not comparable yet", &vec![m.as_str()]);
        push_chip(&mut out, chip("learning", "Learning", detail));
    }
    let ghost third = second + if_some(
        learning@ == "FAIL"@ || (learning@ == "LEARNING"@ && s7.m_leads < 7),
        learning_verdict(*s7),
    );
    assert(verdicts_view(out@) =~= third);
    if s7.l_leads >= 8 && product_leads > 0 && product_qualified > 0 && f.leaking {
        let detail = fill(
            "{}% L>Q vs product {}%",
            &vec![f.own_rate.as_str(), f.product_rate.as_str()],
        );
        push_chip(&mut out, chip("quality_leak", "Weak L>Q", detail));
    }
    let ghost against = objections(
        *s7,
        recent,
        learning@,
        product_leads,
        product_qualified,
        *f,
    );
    assert(verdicts_view(out@) =~= against);
    assert(against.len() == out@.len());
    if out.len() > 2 {
        out.truncate(2);
        assert(verdicts_view(out@) =~= against.take(2));
    } else if out.len() == 0 {
        if s7.qualified >= 2 && f.proven && f.headroom && !failing {
            let detail = fill(
                "Rs {}/qualified on {}% of spend",
                &vec![f.cost.as_str(), f.share.as_str()],
            );
            push_chip(&mut out, chip("scale", "Scale", detail));
            assert(verdicts_view(out@) =~= seq![scale_verdict(*f)]);
        } else {
            push_chip(&mut out, chip("wait", "Wait", "no actionable signal yet".to_owned()));
            assert(verdicts_view(out@) =~= seq![wait_verdict()]);
        }
    }
    assert(verdicts_view(out@).len() == out@.len());
    out
}

/// No targeting is to be killed while tickets of it may still move.
pub proof fn law_kill_waits_for_tickets(
    s7: SevenDay,
    recent: u64,
    learning: Seq<char>,
    product_leads: u64,
    product_qualified: u64,
    f: VerdictFacts,
)
    requires
        recent > 0,
    ensures
        forall|i: int|
            0 <= i < verdicts_of(s7, recent, learning, product_leads, product_qualified, f).len()
                ==> (#[trigger] verdicts_of(
                s7,
                recent,
                learning,
                product_leads,
                product_qualified,
                f,
            )[i]).code != "kill"@,
{
    reveal_strlit("kill");
    reveal_strlit("zero_crm");
    reveal_strlit("learning");
    reveal_strlit("quality_leak");
    reveal_strlit("scale");
    reveal_strlit("wait");
    assert("kill"@.len() == 4 && "wait"@.len() == 4);
    assert("kill"@[0] == 'k' && "wait"@[0] == 'w');
    assert("zero_crm"@.len() == 8 && "learning"@.len() == 8);
    assert("quality_leak"@.len() == 12 && "scale"@.len() == 5);
}

// Products

/// How many of the tickets are of a product, and how many of those are qualified.
pub open spec fn product_came(hits: Seq<Hit>, rows: Seq<AdsDailyRowV>, product: Seq<char>) -> (nat, nat)
    decreases hits.len(),
{
    if hits.len() == 0 {
        (0, 0)
    } else {
        let before = product_came(hits.drop_last(), rows, product);
        let h = hits.last();
        if rows[h.row as int]._product == product {
            (before.0 + 1, before.1 + one(h.qualified))
        } else {
            before
        }
    }
}

proof fn lemma_product_bounds(hits: Seq<Hit>, rows: Seq<AdsDailyRowV>, product: Seq<char>)
    ensures
        product_came(hits, rows, product).1 <= product_came(hits, rows, product).0 <= hits.len(),
    decreases hits.len(),
{
    if hits.len() > 0 {
        lemma_product_bounds(hits.drop_last(), rows, product);
    }
}

/// Counts the tickets of a product in seven days, and those that are qualified.
pub fn product_totals(snap: &Snapshot, product: &str) -> (r: Option<(u64, u64)>)
    ensures
        match window_of(snap@.date, VERDICT_DAYS as nat) {
            Some(seven) => {
                let c = product_came(
                    hits_of(
                        tickets_in(snap@.crm),
                        snap@.ads_daily,
                        rows_between(snap@.ads_daily, seven),
                        seven,
                    ),
                    snap@.ads_daily,
                    product@,
                );
                r matches Some(t) && t.0 == c.0 && t.1 == c.1
            },
            None => r is None,
        },
{
    let seven = match window(snap.date.as_str(), VERDICT_DAYS) {
        Some(w) => w,
        None => {
            return None;
        },
    };
    let rows = &snap.ads_daily;
    let picked = pick_between(rows, &seven);
    let hits = join_tickets(&snap.crm, rows, &picked, &seven);
    let ghost ads = ads_view(rows@);
    let mut l: u64 = 0;
    let mut q: u64 = 0;
    let mut i: usize = 0;
    assert(hits@.take(0) =~= Seq::empty());
    while i < hits.len()
        invariant
            i <= hits@.len(),
            ads == ads_view(rows@),
            forall|k: int| 0 <= k < hits@.len() ==> (#[trigger] hits@[k]).row < rows@.len(),
            product_came(hits@.take(i as int), ads, product@) == (l as nat, q as nat),
        decreases hits.len() - i,
    {
        assert(hits@.take(i + 1).drop_last() =~= hits@.take(i as int));
        let h = hits[i];
        assert(ads[h.row as int] == rows@[h.row as int]@);
        proof {
            lemma_product_bounds(hits@.take(i as int), ads, product@);
        }
        if same(rows[h.row]._product.as_str(), product) {
            l = l + 1;
            q = q + bit(h.qualified);
        }
        i += 1;
    }
    assert(hits@.take(i as int) =~= hits@);
    Some((l, q))
}

} // verus!
