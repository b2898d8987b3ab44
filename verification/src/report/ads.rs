//! The ads of the days of a report: what they show, what they delivered and which tickets they
//! brought.

use crate::crm::{
    delivery_or_min, for_each_ticket, is_booked, is_qualified, is_visited, milestones,
    ticket_ad_id, ticket_funnel, ticket_stage, tickets_in, timed_view,
};
use crate::fetch::{show_day, shown_day};
use crate::funnel::one;
use crate::json::{member, text_or_empty, Json, JsonV};
use crate::report::group::{base_targeting, base_targeting_of, group_key, group_key_of};
use crate::report::segmentation::ad_or_none;
use crate::schema::{rows_view, CreativeRow, CreativeRowV, GroupKind, TargetingCrm};
use crate::sets::{law_sorted_set, lemma_place_of, place_of, sort_set, sorted_set};
use crate::snapshot::{ads_view, count_in, count_of, AdsDailyRow, AdsDailyRowV};
use crate::strs::{less, opt_view, push_text, same, text_lt, views};
use crate::window::{places, Window, WindowV, EPOCH_DAY};
use vstd::prelude::*;

pub mod laws;

verus! {

// Rows of the days

pub open spec fn is_between(r: AdsDailyRowV, w: WindowV) -> bool {
    !text_lt(r.date_start, w.since) && !text_lt(w.until, r.date_start)
}

/// The indices of the rows of the days.
pub open spec fn rows_between(rows: Seq<AdsDailyRowV>, w: WindowV) -> Seq<int>
    decreases rows.len(),
{
    if rows.len() == 0 {
        Seq::empty()
    } else {
        let before = rows_between(rows.drop_last(), w);
        if is_between(rows.last(), w) {
            before.push(rows.len() - 1)
        } else {
            before
        }
    }
}

/// Finds the rows of the days.
pub fn pick_between(rows: &Vec<AdsDailyRow>, w: &Window) -> (r: Vec<usize>)
    ensures
        places(r@) == rows_between(ads_view(rows@), w@),
        forall|k: int| 0 <= k < r@.len() ==> (#[trigger] r@[k]) < rows@.len(),
{
    let ghost all = ads_view(rows@);
    let mut out: Vec<usize> = Vec::new();
    let mut i: usize = 0;
    assert(places(out@) =~= Seq::empty());
    assert(all.take(0) =~= Seq::empty());
    while i < rows.len()
        invariant
            i <= rows@.len(),
            all == ads_view(rows@),
            places(out@) == rows_between(all.take(i as int), w@),
            forall|k: int| 0 <= k < out@.len() ==> (#[trigger] out@[k]) < i,
        decreases rows.len() - i,
    {
        assert(all.take(i + 1).drop_last() =~= all.take(i as int));
        assert(all[i as int] == rows@[i as int]@);
        let day = rows[i].date_start.as_str();
        if !less(day, w.since.as_str()) && !less(w.until.as_str(), day) {
            assert(places(out@.push(i)) =~= places(out@).push(i as int));
            out.push(i);
        }
        i += 1;
    }
    assert(all.take(i as int) =~= all);
    out
}

/// The rows of an ad.
pub open spec fn rows_of(rows: Seq<AdsDailyRowV>, picked: Seq<int>, ad: Seq<char>) -> Seq<int>
    decreases picked.len(),
{
    if picked.len() == 0 {
        Seq::empty()
    } else {
        let before = rows_of(rows, picked.drop_last(), ad);
        if rows[picked.last()].ad_id == ad {
            before.push(picked.last())
        } else {
            before
        }
    }
}

pub(crate) fn list_rows(rows: &Vec<AdsDailyRow>, picked: &Vec<usize>, ad: &str) -> (r: Vec<usize>)
    requires
        forall|k: int| 0 <= k < picked@.len() ==> (#[trigger] picked@[k]) < rows@.len(),
    ensures
        places(r@) == rows_of(ads_view(rows@), places(picked@), ad@),
{
    let ghost all = places(picked@);
    let mut out: Vec<usize> = Vec::new();
    let mut k: usize = 0;
    assert(places(out@) =~= Seq::empty());
    assert(all.take(0) =~= Seq::empty());
    while k < picked.len()
        invariant
            k <= picked@.len(),
            all == places(picked@),
            forall|j: int| 0 <= j < picked@.len() ==> (#[trigger] picked@[j]) < rows@.len(),
            places(out@) == rows_of(ads_view(rows@), all.take(k as int), ad@),
        decreases picked.len() - k,
    {
        assert(all.take(k + 1).drop_last() =~= all.take(k as int));
        let i: usize = picked[k];
        assert(all[k as int] == i);
        assert(ads_view(rows@)[i as int] == rows@[i as int]@);
        if same(rows[i].ad_id.as_str(), ad) {
            assert(places(out@.push(i)) =~= places(out@).push(i as int));
            out.push(i);
        }
        k += 1;
    }
    assert(all.take(k as int) =~= all);
    out
}

/// The row that says what an ad is: its first one with a name, or its last one.
pub open spec fn head_of(rows: Seq<AdsDailyRowV>, picked: Seq<int>, ad: Seq<char>) -> Option<int>
    decreases picked.len(),
{
    if picked.len() == 0 {
        None
    } else {
        let before = head_of(rows, picked.drop_last(), ad);
        if rows[picked.last()].ad_id != ad {
            before
        } else {
            match before {
                Some(i) => if rows[i].ad_name.len() > 0 {
                    before
                } else {
                    Some(picked.last())
                },
                None => Some(picked.last()),
            }
        }
    }
}

fn find_head(rows: &Vec<AdsDailyRow>, picked: &Vec<usize>, ad: &str) -> (r: Option<usize>)
    requires
        forall|k: int| 0 <= k < picked@.len() ==> (#[trigger] picked@[k]) < rows@.len(),
    ensures
        match r {
            Some(i) => i < rows@.len() && head_of(ads_view(rows@), places(picked@), ad@) == Some(
                i as int,
            ),
            None => head_of(ads_view(rows@), places(picked@), ad@) is None,
        },
{
    let ghost all = places(picked@);
    let mut head: Option<usize> = None;
    let mut k: usize = 0;
    assert(all.take(0) =~= Seq::empty());
    while k < picked.len()
        invariant
            k <= picked@.len(),
            all == places(picked@),
            forall|j: int| 0 <= j < picked@.len() ==> (#[trigger] picked@[j]) < rows@.len(),
            match head {
                Some(i) => i < rows@.len() && head_of(ads_view(rows@), all.take(k as int), ad@)
                    == Some(i as int),
                None => head_of(ads_view(rows@), all.take(k as int), ad@) is None,
            },
        decreases picked.len() - k,
    {
        assert(all.take(k + 1).drop_last() =~= all.take(k as int));
        let i: usize = picked[k];
        assert(all[k as int] == i);
        assert(ads_view(rows@)[i as int] == rows@[i as int]@);
        if same(rows[i].ad_id.as_str(), ad) {
            let named = match head {
                Some(h) => {
                    assert(ads_view(rows@)[h as int] == rows@[h as int]@);
                    crate::strs::chars_of(rows[h].ad_name.as_str()).len() > 0
                },
                None => false,
            };
            if !named {
                head = Some(i);
            }
        }
        k += 1;
    }
    assert(all.take(k as int) =~= all);
    head
}

// Creatives

/// What is known of the creative of an ad, in the last row that speaks of it.
pub open spec fn creative_of(rows: Seq<CreativeRowV>, ad: Seq<char>) -> Option<CreativeRowV>
    decreases rows.len(),
{
    if rows.len() == 0 {
        None
    } else if rows.last().ad_id == ad {
        Some(rows.last())
    } else {
        creative_of(rows.drop_last(), ad)
    }
}

pub open spec fn opt_row(o: Option<&CreativeRow>) -> Option<CreativeRowV> {
    match o {
        Some(c) => Some(c@),
        None => None,
    }
}

fn find_creative<'a>(rows: &'a Vec<CreativeRow>, ad: &str) -> (r: Option<&'a CreativeRow>)
    ensures
        opt_row(r) == creative_of(rows_view(rows@), ad@),
{
    let ghost all = rows_view(rows@);
    let mut n: usize = rows.len();
    assert(all.take(n as int) =~= all);
    while n > 0
        invariant
            n <= rows@.len(),
            all == rows_view(rows@),
            creative_of(all, ad@) == creative_of(all.take(n as int), ad@),
        decreases n,
    {
        assert(all.take(n as int).drop_last() =~= all.take(n - 1));
        assert(all[n - 1] == rows@[n - 1]@);
        if same(rows[n - 1].ad_id.as_str(), ad) {
            return Some(&rows[n - 1]);
        }
        n -= 1;
    }
    None
}

// Ads

/// An ad that delivered in the days, and the group to which it belongs.
pub struct Ad<'a> {
    pub id: String,
    pub product: String,
    pub name: String,
    pub campaign: String,
    pub targeting: String,
    pub kind: GroupKind,
    pub key: String,
    pub creative: Option<&'a CreativeRow>,
}

#[verifier::ext_equal]
pub struct AdV {
    pub id: Seq<char>,
    pub product: Seq<char>,
    pub name: Seq<char>,
    pub campaign: Seq<char>,
    pub targeting: Seq<char>,
    pub kind: GroupKind,
    pub key: Seq<char>,
    pub creative: Option<CreativeRowV>,
}

impl<'a> View for Ad<'a> {
    type V = AdV;

    open spec fn view(&self) -> AdV {
        AdV {
            id: self.id@,
            product: self.product@,
            name: self.name@,
            campaign: self.campaign@,
            targeting: self.targeting@,
            kind: self.kind,
            key: self.key@,
            creative: opt_row(self.creative),
        }
    }
}

pub open spec fn list_of_ads(v: Seq<Ad>) -> Seq<AdV> {
    v.map_values(|a: Ad| a@)
}

/// The ids of the ads of rows.
pub open spec fn ad_ids_of(rows: Seq<AdsDailyRowV>, picked: Seq<int>) -> Seq<Seq<char>> {
    picked.map_values(|i: int| rows[i].ad_id)
}

pub open spec fn ad_of(
    id: Seq<char>,
    rows: Seq<AdsDailyRowV>,
    picked: Seq<int>,
    creatives: Seq<CreativeRowV>,
) -> AdV {
    let h = rows[head_of(rows, picked, id)->0];
    let c = creative_of(creatives, id);
    let k = group_key_of(id, h.ad_name, c);
    AdV {
        id,
        product: h._product,
        name: h.ad_name,
        campaign: h.campaign_name,
        targeting: base_targeting_of(h.adset_name),
        kind: k.0,
        key: k.1,
        creative: c,
    }
}

/// The ads of rows, in the order of their ids.
pub open spec fn ads_of(
    rows: Seq<AdsDailyRowV>,
    picked: Seq<int>,
    creatives: Seq<CreativeRowV>,
) -> Seq<AdV> {
    sorted_set(ad_ids_of(rows, picked)).map_values(
        |id: Seq<char>| ad_of(id, rows, picked, creatives),
    )
}

proof fn lemma_head_is_there(rows: Seq<AdsDailyRowV>, picked: Seq<int>, ad: Seq<char>)
    ensures
        ad_ids_of(rows, picked).contains(ad) ==> head_of(rows, picked, ad) is Some,
    decreases picked.len(),
{
    if picked.len() > 0 {
        let rest = picked.drop_last();
        lemma_head_is_there(rows, rest, ad);
        if ad_ids_of(rows, picked).contains(ad) && rows[picked.last()].ad_id != ad {
            let k = choose|k: int| 0 <= k < picked.len() && ad_ids_of(rows, picked)[k] == ad;
            assert(ad_ids_of(rows, rest)[k] == ad);
        }
    }
}

/// Lists the ads of rows.
pub fn list_ads<'a>(
    rows: &Vec<AdsDailyRow>,
    picked: &Vec<usize>,
    creatives: &'a Vec<CreativeRow>,
) -> (r: Vec<Ad<'a>>)
    requires
        forall|k: int| 0 <= k < picked@.len() ==> (#[trigger] picked@[k]) < rows@.len(),
    ensures
        list_of_ads(r@) == ads_of(ads_view(rows@), places(picked@), rows_view(creatives@)),
{
    let ghost all = ads_view(rows@);
    let ghost at = places(picked@);
    let ghost want = ad_ids_of(all, at);
    let mut ids: Vec<String> = Vec::new();
    let mut k: usize = 0;
    assert(views(ids@) =~= want.take(0));
    while k < picked.len()
        invariant
            k <= picked@.len(),
            all == ads_view(rows@),
            at == places(picked@),
            want == ad_ids_of(all, at),
            forall|j: int| 0 <= j < picked@.len() ==> (#[trigger] picked@[j]) < rows@.len(),
            views(ids@) == want.take(k as int),
        decreases picked.len() - k,
    {
        assert(at[k as int] == picked@[k as int]);
        assert(all[picked@[k as int] as int] == rows@[picked@[k as int] as int]@);
        assert(want.take(k + 1) =~= want.take(k as int).push(want[k as int]));
        push_text(&mut ids, rows[picked[k]].ad_id.clone());
        k += 1;
    }
    assert(want.take(k as int) =~= want);
    let each = sort_set(&ids);
    let ghost set_of = sorted_set(want);
    let ghost goal = ads_of(all, at, rows_view(creatives@));
    let mut out: Vec<Ad<'a>> = Vec::new();
    let mut i: usize = 0;
    assert(list_of_ads(out@) =~= goal.take(0));
    assert(views(each@).len() == each@.len());
    while i < each.len()
        invariant
            i <= each@.len(),
            each@.len() == set_of.len(),
            views(each@) == set_of,
            all == ads_view(rows@),
            at == places(picked@),
            want == ad_ids_of(all, at),
            set_of == sorted_set(want),
            goal == ads_of(all, at, rows_view(creatives@)),
            forall|j: int| 0 <= j < picked@.len() ==> (#[trigger] picked@[j]) < rows@.len(),
            list_of_ads(out@) == goal.take(i as int),
        decreases each.len() - i,
    {
        let id = each[i].as_str();
        assert(views(each@)[i as int] == id@);
        proof {
            law_sorted_set(want);
            assert(set_of.contains(id@));
            lemma_head_is_there(all, at, id@);
        }
        let c = find_creative(creatives, id);
        match find_head(rows, picked, id) {
            Some(h) => {
                assert(all[h as int] == rows@[h as int]@);
                let (kind, key) = group_key(id, rows[h].ad_name.as_str(), c);
                let ad = Ad {
                    id: id.to_owned(),
                    product: rows[h]._product.clone(),
                    name: rows[h].ad_name.clone(),
                    campaign: rows[h].campaign_name.clone(),
                    targeting: base_targeting(rows[h].adset_name.as_str()),
                    kind,
                    key,
                    creative: c,
                };
                assert(ad@ =~= goal[i as int]);
                assert(list_of_ads(out@.push(ad)) =~= list_of_ads(out@).push(ad@));
                assert(goal.take(i + 1) =~= goal.take(i as int).push(goal[i as int]));
                out.push(ad);
            },
            None => {},
        }
        i += 1;
    }
    assert(goal.take(i as int) =~= goal);
    out
}

pub open spec fn ids_of(ads: Seq<AdV>) -> Seq<Seq<char>> {
    ads.map_values(|a: AdV| a.id)
}

/// The index of the ad with an id; the number of the ads where there is none.
pub open spec fn ad_at(ads: Seq<AdV>, id: Seq<char>) -> int {
    place_of(ids_of(ads), id)
}

fn find_ad_at(ads: &Vec<Ad>, id: &str) -> (r: usize)
    ensures
        r == ad_at(list_of_ads(ads@), id@),
        r <= ads@.len(),
{
    let ghost all = ids_of(list_of_ads(ads@));
    let mut k: usize = 0;
    assert(all.skip(0) =~= all);
    assert(all.len() == ads@.len());
    while k < ads.len()
        invariant
            k <= ads@.len(),
            all == ids_of(list_of_ads(ads@)),
            all.len() == ads@.len(),
            place_of(all, id@) == k + place_of(all.skip(k as int), id@),
        decreases ads.len() - k,
    {
        assert(all[k as int] == ads@[k as int].id@);
        if same(ads[k].id.as_str(), id) {
            return k;
        }
        assert(all.skip(k as int).drop_first() =~= all.skip(k + 1));
        k += 1;
    }
    k
}

// What was delivered

/// What a row adds to the group of its ad.
pub struct Fact {
    pub ad: usize,
    pub date: String,
    pub impressions: u64,
    pub reach: u64,
    pub clicks: u64,
    pub m_leads: u64,
}

#[verifier::ext_equal]
pub struct FactV {
    pub ad: int,
    pub date: Seq<char>,
    pub impressions: nat,
    pub reach: nat,
    pub clicks: nat,
    pub m_leads: nat,
}

impl View for Fact {
    type V = FactV;

    open spec fn view(&self) -> FactV {
        FactV {
            ad: self.ad as int,
            date: self.date@,
            impressions: self.impressions as nat,
            reach: self.reach as nat,
            clicks: self.clicks as nat,
            m_leads: self.m_leads as nat,
        }
    }
}

pub open spec fn facts_view(v: Seq<Fact>) -> Seq<FactV> {
    v.map_values(|f: Fact| f@)
}

/// The clicks of a row: those on its link.
pub open spec fn fact_of(r: AdsDailyRowV, m: u64, ads: Seq<AdV>) -> FactV {
    FactV {
        ad: ad_at(ads, r.ad_id),
        date: r.date_start,
        impressions: count_in(r.impressions) as nat,
        reach: count_in(r.reach) as nat,
        clicks: count_in(r.inline_link_clicks) as nat,
        m_leads: m as nat,
    }
}

/// What rows add, each to the group of its ad; `m` has the leads of each row of the snapshot.
pub open spec fn facts_of(
    rows: Seq<AdsDailyRowV>,
    picked: Seq<int>,
    m: Seq<u64>,
    ads: Seq<AdV>,
) -> Seq<FactV> {
    picked.map_values(|i: int| fact_of(rows[i], m[i], ads))
}

pub(crate) fn list_facts(
    rows: &Vec<AdsDailyRow>,
    picked: &Vec<usize>,
    m: &Vec<u64>,
    ads: &Vec<Ad>,
) -> (r: Vec<Fact>)
    requires
        m@.len() == rows@.len(),
        forall|k: int| 0 <= k < picked@.len() ==> (#[trigger] picked@[k]) < rows@.len(),
    ensures
        facts_view(r@) == facts_of(ads_view(rows@), places(picked@), m@, list_of_ads(ads@)),
{
    let ghost all = ads_view(rows@);
    let ghost at = places(picked@);
    let ghost goal = facts_of(all, at, m@, list_of_ads(ads@));
    let mut out: Vec<Fact> = Vec::new();
    let mut k: usize = 0;
    assert(facts_view(out@) =~= goal.take(0));
    while k < picked.len()
        invariant
            k <= picked@.len(),
            all == ads_view(rows@),
            at == places(picked@),
            goal == facts_of(all, at, m@, list_of_ads(ads@)),
            m@.len() == rows@.len(),
            forall|j: int| 0 <= j < picked@.len() ==> (#[trigger] picked@[j]) < rows@.len(),
            facts_view(out@) == goal.take(k as int),
        decreases picked.len() - k,
    {
        let i: usize = picked[k];
        assert(at[k as int] == i);
        assert(all[i as int] == rows@[i as int]@);
        let f = Fact {
            ad: find_ad_at(ads, rows[i].ad_id.as_str()),
            date: rows[i].date_start.clone(),
            impressions: count_of(rows[i].impressions.as_str()),
            reach: count_of(rows[i].reach.as_str()),
            clicks: count_of(rows[i].inline_link_clicks.as_str()),
            m_leads: m[i],
        };
        assert(f@ =~= goal[k as int]);
        assert(facts_view(out@.push(f)) =~= facts_view(out@).push(f@));
        assert(goal.take(k + 1) =~= goal.take(k as int).push(goal[k as int]));
        out.push(f);
        k += 1;
    }
    assert(goal.take(k as int) =~= goal);
    out
}

// Parts

/// A part of a report: a group of ads, or of it one targeting or one day.
pub struct Part<'a> {
    pub product: &'a str,
    pub key: &'a str,
    pub targeting: Option<&'a str>,
    pub date: Option<&'a str>,
}

#[verifier::ext_equal]
pub struct PartV {
    pub product: Seq<char>,
    pub key: Seq<char>,
    pub targeting: Option<Seq<char>>,
    pub date: Option<Seq<char>>,
}

pub open spec fn opt_str_view(o: Option<&str>) -> Option<Seq<char>> {
    match o {
        Some(s) => Some(s@),
        None => None,
    }
}

impl<'a> View for Part<'a> {
    type V = PartV;

    open spec fn view(&self) -> PartV {
        PartV {
            product: self.product@,
            key: self.key@,
            targeting: opt_str_view(self.targeting),
            date: opt_str_view(self.date),
        }
    }
}

/// Whether an ad is in a part, whatever the day.
pub open spec fn ad_in(ads: Seq<AdV>, ad: int, p: PartV) -> bool {
    &&& 0 <= ad < ads.len()
    &&& ads[ad].product == p.product
    &&& ads[ad].key == p.key
    &&& p.targeting matches Some(t) ==> ads[ad].targeting == t
}

pub open spec fn fact_in(ads: Seq<AdV>, f: FactV, p: PartV) -> bool {
    ad_in(ads, f.ad, p) && (p.date is None || p.date == Some(f.date))
}

fn has_ad(ads: &Vec<Ad>, ad: usize, p: &Part) -> (r: bool)
    ensures
        r == ad_in(list_of_ads(ads@), ad as int, p@),
{
    if ad >= ads.len() {
        return false;
    }
    assert(list_of_ads(ads@)[ad as int] == ads@[ad as int]@);
    let a = &ads[ad];
    same(a.product.as_str(), p.product) && same(a.key.as_str(), p.key) && match p.targeting {
        Some(t) => same(a.targeting.as_str(), t),
        None => true,
    }
}

// Sums

/// What was delivered.
#[derive(Debug, Clone, Copy, PartialEq, Eq, Structural)]
pub struct Delivered {
    pub impressions: u64,
    pub reach: u64,
    pub clicks: u64,
    pub m_leads: u64,
}

#[verifier::ext_equal]
pub struct Sum {
    pub impressions: nat,
    pub reach: nat,
    pub clicks: nat,
    pub m_leads: nat,
}

impl View for Delivered {
    type V = Sum;

    open spec fn view(&self) -> Sum {
        Sum {
            impressions: self.impressions as nat,
            reach: self.reach as nat,
            clicks: self.clicks as nat,
            m_leads: self.m_leads as nat,
        }
    }
}

pub open spec fn no_sum() -> Sum {
    Sum { impressions: 0, reach: 0, clicks: 0, m_leads: 0 }
}

pub open spec fn plus(s: Sum, f: FactV) -> Sum {
    Sum {
        impressions: s.impressions + f.impressions,
        reach: s.reach + f.reach,
        clicks: s.clicks + f.clicks,
        m_leads: s.m_leads + f.m_leads,
    }
}

/// What a part delivered.
pub open spec fn sum_of(facts: Seq<FactV>, ads: Seq<AdV>, p: PartV) -> Sum
    decreases facts.len(),
{
    if facts.len() == 0 {
        no_sum()
    } else {
        let before = sum_of(facts.drop_last(), ads, p);
        if fact_in(ads, facts.last(), p) {
            plus(before, facts.last())
        } else {
            before
        }
    }
}

/// What was delivered altogether.
pub open spec fn total_of(facts: Seq<FactV>) -> Sum
    decreases facts.len(),
{
    if facts.len() == 0 {
        no_sum()
    } else {
        plus(total_of(facts.drop_last()), facts.last())
    }
}

pub open spec fn within(a: Sum, b: Sum) -> bool {
    &&& a.impressions <= b.impressions
    &&& a.reach <= b.reach
    &&& a.clicks <= b.clicks
    &&& a.m_leads <= b.m_leads
}

pub open spec fn fits(s: Sum) -> bool {
    &&& s.impressions <= u64::MAX
    &&& s.reach <= u64::MAX
    &&& s.clicks <= u64::MAX
    &&& s.m_leads <= u64::MAX
}

/// A part delivered no more than all of them together.
pub proof fn law_part_is_within_total(facts: Seq<FactV>, ads: Seq<AdV>, p: PartV)
    ensures
        within(sum_of(facts, ads, p), total_of(facts)),
    decreases facts.len(),
{
    if facts.len() > 0 {
        law_part_is_within_total(facts.drop_last(), ads, p);
    }
}

proof fn lemma_total_grows(facts: Seq<FactV>, n: int)
    requires
        0 <= n <= facts.len(),
    ensures
        within(total_of(facts.take(n)), total_of(facts)),
    decreases facts.len() - n,
{
    if n < facts.len() {
        lemma_total_grows(facts, n + 1);
        assert(facts.take(n + 1).drop_last() =~= facts.take(n));
    } else {
        assert(facts.take(n) =~= facts);
    }
}

/// Sums up what a part delivered.
pub(crate) fn sum_up(facts: &Vec<Fact>, ads: &Vec<Ad>, p: &Part) -> (r: Delivered)
    requires
        fits(total_of(facts_view(facts@))),
    ensures
        r@ == sum_of(facts_view(facts@), list_of_ads(ads@), p@),
{
    let ghost all = facts_view(facts@);
    let ghost of = list_of_ads(ads@);
    let mut r = Delivered { impressions: 0, reach: 0, clicks: 0, m_leads: 0 };
    let mut i: usize = 0;
    assert(all.take(0) =~= Seq::empty());
    while i < facts.len()
        invariant
            i <= facts@.len(),
            all == facts_view(facts@),
            of == list_of_ads(ads@),
            fits(total_of(all)),
            r@ == sum_of(all.take(i as int), of, p@),
        decreases facts.len() - i,
    {
        let f = &facts[i];
        let ghost now = all.take(i + 1);
        assert(now.drop_last() =~= all.take(i as int));
        assert(all[i as int] == f@);
        assert(now.last() == f@);
        proof {
            law_part_is_within_total(now, of, p@);
            lemma_total_grows(all, i + 1);
        }
        let day = match p.date {
            Some(d) => same(f.date.as_str(), d),
            None => true,
        };
        if day && has_ad(ads, f.ad, p) {
            assert(fact_in(of, f@, p@));
            assert(sum_of(now, of, p@) == plus(r@, f@));
            r = Delivered {
                impressions: r.impressions + f.impressions,
                reach: r.reach + f.reach,
                clicks: r.clicks + f.clicks,
                m_leads: r.m_leads + f.m_leads,
            };
        }
        i += 1;
    }
    assert(all.take(i as int) =~= all);
    r
}

/// Whether something of a part was delivered on its day.
pub open spec fn is_delivered(facts: Seq<FactV>, ads: Seq<AdV>, p: PartV) -> bool {
    exists|i: int| 0 <= i < facts.len() && fact_in(ads, #[trigger] facts[i], p)
}

pub(crate) fn find_fact(facts: &Vec<Fact>, ads: &Vec<Ad>, p: &Part) -> (r: bool)
    ensures
        r == is_delivered(facts_view(facts@), list_of_ads(ads@), p@),
{
    let ghost all = facts_view(facts@);
    let mut i: usize = 0;
    while i < facts.len()
        invariant
            i <= facts@.len(),
            all == facts_view(facts@),
            forall|k: int| 0 <= k < i ==> !fact_in(list_of_ads(ads@), #[trigger] all[k], p@),
        decreases facts.len() - i,
    {
        let f = &facts[i];
        assert(all[i as int] == f@);
        let day = match p.date {
            Some(d) => same(f.date.as_str(), d),
            None => true,
        };
        if day && has_ad(ads, f.ad, p) {
            assert(fact_in(list_of_ads(ads@), all[i as int], p@));
            return true;
        }
        i += 1;
    }
    false
}

/// What all rows of a snapshot delivered.
pub open spec fn rows_total(rows: Seq<AdsDailyRowV>, m: Seq<u64>) -> Sum
    decreases rows.len(),
{
    if rows.len() == 0 {
        no_sum()
    } else {
        plus(
            rows_total(rows.drop_last(), m),
            fact_of(rows.last(), m[rows.len() - 1], Seq::empty()),
        )
    }
}

pub(crate) proof fn lemma_facts_fit(rows: Seq<AdsDailyRowV>, w: WindowV, m: Seq<u64>, ads: Seq<AdV>)
    ensures
        within(total_of(facts_of(rows, rows_between(rows, w), m, ads)), rows_total(rows, m)),
        forall|k: int|
            0 <= k < rows_between(rows, w).len() ==> 0 <= (#[trigger] rows_between(rows, w)[k])
                < rows.len(),
    decreases rows.len(),
{
    if rows.len() > 0 {
        let rest = rows.drop_last();
        lemma_facts_fit(rest, w, m, ads);
        let before = rows_between(rest, w);
        let now = rows_between(rows, w);
        let n = rows.len() - 1;
        assert forall|k: int| 0 <= k < now.len() implies 0 <= (#[trigger] now[k]) < rows.len() by {
            if k < before.len() {
                assert(now[k] == before[k]);
            }
        }
        let facts = facts_of(rows, now, m, ads);
        let fewer = facts_of(rest, before, m, ads);
        if is_between(rows.last(), w) {
            assert(facts.drop_last() =~= fewer) by {
                assert forall|k: int| 0 <= k < fewer.len() implies facts.drop_last()[k]
                    == fewer[k] by {
                    assert(now[k] == before[k]);
                    assert(0 <= before[k] < rest.len());
                    assert(rest[before[k]] == rows[before[k]]);
                }
            }
            assert(facts.last() == fact_of(rows[n], m[n], ads));
        } else {
            assert(facts =~= fewer) by {
                assert forall|k: int| 0 <= k < fewer.len() implies facts[k] == fewer[k] by {
                    assert(0 <= before[k] < rest.len());
                    assert(rest[before[k]] == rows[before[k]]);
                }
            }
        }
    }
}

/// Whether the sums of all rows of a snapshot can be told.
pub fn sums_fit(rows: &Vec<AdsDailyRow>, m: &Vec<u64>) -> (r: bool)
    requires
        m@.len() == rows@.len(),
    ensures
        r == fits(rows_total(ads_view(rows@), m@)),
{
    let ghost all = ads_view(rows@);
    let mut a: u64 = 0;
    let mut b: u64 = 0;
    let mut c: u64 = 0;
    let mut d: u64 = 0;
    let mut i: usize = 0;
    assert(all.take(0) =~= Seq::empty());
    while i < rows.len()
        invariant
            i <= rows@.len(),
            m@.len() == rows@.len(),
            all == ads_view(rows@),
            rows_total(all.take(i as int), m@) == (Sum {
                impressions: a as nat,
                reach: b as nat,
                clicks: c as nat,
                m_leads: d as nat,
            }),
        decreases rows.len() - i,
    {
        assert(all.take(i + 1).drop_last() =~= all.take(i as int));
        assert(all[i as int] == rows@[i as int]@);
        proof {
            lemma_rows_total_grows(all, m@, i + 1);
        }
        match (
            a.checked_add(count_of(rows[i].impressions.as_str())),
            b.checked_add(count_of(rows[i].reach.as_str())),
            c.checked_add(count_of(rows[i].inline_link_clicks.as_str())),
            d.checked_add(m[i]),
        ) {
            (Some(x), Some(y), Some(z), Some(t)) => {
                a = x;
                b = y;
                c = z;
                d = t;
            },
            _ => {
                return false;
            },
        }
        i += 1;
    }
    assert(all.take(i as int) =~= all);
    true
}

proof fn lemma_rows_total_grows(rows: Seq<AdsDailyRowV>, m: Seq<u64>, n: int)
    requires
        0 <= n <= rows.len(),
    ensures
        within(rows_total(rows.take(n), m), rows_total(rows, m)),
    decreases rows.len() - n,
{
    if n < rows.len() {
        lemma_rows_total_grows(rows, m, n + 1);
        assert(rows.take(n + 1).drop_last() =~= rows.take(n));
    } else {
        assert(rows.take(n) =~= rows);
    }
}

// Tickets

/// A ticket of the days that one of the ads brought, and how far it came.
pub struct Ticket {
    pub ad: usize,
    pub date: Option<String>,
    pub qualified: bool,
    pub visit: bool,
    pub booking: bool,
}

#[verifier::ext_equal]
pub struct TicketV {
    pub ad: int,
    pub date: Option<Seq<char>>,
    pub qualified: bool,
    pub visit: bool,
    pub booking: bool,
}

impl View for Ticket {
    type V = TicketV;

    open spec fn view(&self) -> TicketV {
        TicketV {
            ad: self.ad as int,
            date: opt_view(self.date),
            qualified: self.qualified,
            visit: self.visit,
            booking: self.booking,
        }
    }
}

pub open spec fn tickets_view(v: Seq<Ticket>) -> Seq<TicketV> {
    v.map_values(|t: Ticket| t@)
}

/// The day of a point in time, five and a half hours ahead of UTC.
pub open spec fn ist_day(at: int) -> int {
    EPOCH_DAY + (at + 19800) / 86400
}

fn find_ist_day(at: i64) -> (r: i64)
    ensures
        r == ist_day(at as int),
{
    // Counted from a day so far back that no number is negative.
    let shifted: i128 = at as i128 + 19800 + 86400 * 200_000_000_000_000;
    let days: i128 = shifted / 86400 - 200_000_000_000_000;
    assert(days == (at + 19800) / 86400);
    (days + EPOCH_DAY as i128) as i64
}

pub open spec fn is_timely(t: JsonV, w: WindowV) -> bool {
    w.from <= delivery_or_min(t) < w.to
}

pub open spec fn ticket_of(t: JsonV, ads: Seq<AdV>) -> TicketV {
    let stage = text_or_empty(member(t, "stage"@));
    TicketV {
        ad: ad_at(ads, ad_or_none(t)),
        date: shown_day(ist_day(delivery_or_min(t) as int)),
        qualified: is_qualified(stage),
        visit: is_visited(stage),
        booking: is_booked(stage, text_or_empty(member(t, "funnel"@))),
    }
}

/// The tickets of the days that the ads brought.
pub open spec fn tickets_of(tickets: Seq<JsonV>, ads: Seq<AdV>, w: WindowV) -> Seq<TicketV>
    decreases tickets.len(),
{
    if tickets.len() == 0 {
        Seq::empty()
    } else {
        let before = tickets_of(tickets.drop_last(), ads, w);
        let t = tickets.last();
        if is_timely(t, w) && ad_at(ads, ad_or_none(t)) < ads.len() {
            before.push(ticket_of(t, ads))
        } else {
            before
        }
    }
}

/// How many tickets of the days none of the ads brought.
pub open spec fn unattributed_of(tickets: Seq<JsonV>, ads: Seq<AdV>, w: WindowV) -> nat
    decreases tickets.len(),
{
    if tickets.len() == 0 {
        0
    } else {
        let t = tickets.last();
        unattributed_of(tickets.drop_last(), ads, w) + if is_timely(t, w) && !(ad_at(
            ads,
            ad_or_none(t),
        ) < ads.len()) {
            1nat
        } else {
            0
        }
    }
}

/// How many tickets are of the days.
pub open spec fn timely_count(tickets: Seq<JsonV>, w: WindowV) -> nat
    decreases tickets.len(),
{
    if tickets.len() == 0 {
        0
    } else {
        timely_count(tickets.drop_last(), w) + if is_timely(tickets.last(), w) {
            1nat
        } else {
            0
        }
    }
}

/// No ticket of the days is dropped: an ad brought it, or it is counted as unattributed.
pub proof fn law_no_ticket_is_dropped(tickets: Seq<JsonV>, ads: Seq<AdV>, w: WindowV)
    ensures
        tickets_of(tickets, ads, w).len() + unattributed_of(tickets, ads, w) == timely_count(
            tickets,
            w,
        ),
        timely_count(tickets, w) <= tickets.len(),
    decreases tickets.len(),
{
    if tickets.len() > 0 {
        law_no_ticket_is_dropped(tickets.drop_last(), ads, w);
    }
}

/// Every ticket that is counted has its ad among the ads.
pub proof fn law_tickets_have_their_ad(tickets: Seq<JsonV>, ads: Seq<AdV>, w: WindowV)
    ensures
        forall|i: int|
            0 <= i < tickets_of(tickets, ads, w).len() ==> 0 <= (#[trigger] tickets_of(
                tickets,
                ads,
                w,
            )[i]).ad < ads.len(),
    decreases tickets.len(),
{
    if tickets.len() > 0 {
        law_tickets_have_their_ad(tickets.drop_last(), ads, w);
        lemma_place_of(ids_of(ads), ad_or_none(tickets.last()));
    }
}

/// Finds the tickets of the days that the ads brought, and counts the others.
pub(crate) fn list_tickets(crm: &Json, ads: &Vec<Ad>, w: &Window) -> (r: (Vec<Ticket>, u64))
    ensures
        tickets_view(r.0@) == tickets_of(tickets_in(crm@), list_of_ads(ads@), w@),
        r.1 == unattributed_of(tickets_in(crm@), list_of_ads(ads@), w@),
{
    let timed = for_each_ticket(crm);
    let ghost all = tickets_in(crm@);
    let ghost of = list_of_ads(ads@);
    let mut out: Vec<Ticket> = Vec::new();
    let mut others: u64 = 0;
    let mut i: usize = 0;
    assert(all.take(0) =~= Seq::empty());
    assert(tickets_view(out@) =~= Seq::empty());
    assert(timed_view(timed@).len() == timed@.len());
    while i < timed.len()
        invariant
            i <= timed@.len(),
            timed@.len() == all.len(),
            timed_view(timed@) == all.map_values(|t: JsonV| (t, delivery_or_min(t))),
            of == list_of_ads(ads@),
            tickets_view(out@) == tickets_of(all.take(i as int), of, w@),
            others == unattributed_of(all.take(i as int), of, w@),
        decreases timed.len() - i,
    {
        assert(all.take(i + 1).drop_last() =~= all.take(i as int));
        assert(timed_view(timed@)[i as int] == (timed@[i as int].0@, timed@[i as int].1));
        proof {
            law_no_ticket_is_dropped(all.take(i as int), of, w@);
        }
        let (t, at) = timed[i];
        if w.from <= at && at < w.to {
            let id = match ticket_ad_id(t) {
                Some(a) => a,
                None => String::new(),
            };
            assert(id@ =~= ad_or_none(t@));
            let ad: usize = find_ad_at(ads, id.as_str());
            assert(of.len() == ads@.len());
            if ad < ads.len() {
                let (qualified, visit, booking) = milestones(
                    ticket_stage(t).as_str(),
                    ticket_funnel(t).as_str(),
                );
                let k = Ticket { ad, date: show_day(find_ist_day(at)), qualified, visit, booking };
                assert(k@ =~= ticket_of(t@, of));
                assert(tickets_view(out@.push(k)) =~= tickets_view(out@).push(k@));
                out.push(k);
            } else {
                others = others + 1;
            }
        }
        i += 1;
    }
    assert(all.take(i as int) =~= all);
    (out, others)
}

pub open spec fn ticket_in(ads: Seq<AdV>, t: TicketV, p: PartV) -> bool {
    ad_in(ads, t.ad, p) && (p.date is None || p.date == t.date)
}

#[verifier::ext_equal]
pub struct Came {
    pub l_leads: nat,
    pub qualified: nat,
    pub visit: nat,
    pub booking: nat,
}

impl View for TargetingCrm {
    type V = Came;

    open spec fn view(&self) -> Came {
        Came {
            l_leads: self.l_leads as nat,
            qualified: self.qualified as nat,
            visit: self.visit as nat,
            booking: self.booking as nat,
        }
    }
}

/// How many tickets a part brought, and how far they came.
pub open spec fn came_of(tickets: Seq<TicketV>, ads: Seq<AdV>, p: PartV) -> Came
    decreases tickets.len(),
{
    if tickets.len() == 0 {
        Came { l_leads: 0, qualified: 0, visit: 0, booking: 0 }
    } else {
        let before = came_of(tickets.drop_last(), ads, p);
        let t = tickets.last();
        if ticket_in(ads, t, p) {
            Came {
                l_leads: before.l_leads + 1,
                qualified: before.qualified + one(t.qualified),
                visit: before.visit + one(t.visit),
                booking: before.booking + one(t.booking),
            }
        } else {
            before
        }
    }
}

/// The milestones narrow: no more tickets are qualified than there are.
pub proof fn law_came_narrows(tickets: Seq<TicketV>, ads: Seq<AdV>, p: PartV)
    ensures
        came_of(tickets, ads, p).qualified <= came_of(tickets, ads, p).l_leads <= tickets.len(),
        came_of(tickets, ads, p).visit <= came_of(tickets, ads, p).l_leads,
        came_of(tickets, ads, p).booking <= came_of(tickets, ads, p).l_leads,
    decreases tickets.len(),
{
    if tickets.len() > 0 {
        law_came_narrows(tickets.drop_last(), ads, p);
    }
}

fn bit(b: bool) -> (r: u64)
    ensures
        r == one(b),
{
    if b {
        1
    } else {
        0
    }
}

pub(crate) fn count_came(tickets: &Vec<Ticket>, ads: &Vec<Ad>, p: &Part) -> (r: TargetingCrm)
    ensures
        r@ == came_of(tickets_view(tickets@), list_of_ads(ads@), p@),
{
    let ghost all = tickets_view(tickets@);
    let ghost of = list_of_ads(ads@);
    let mut r = TargetingCrm { l_leads: 0, qualified: 0, visit: 0, booking: 0 };
    let mut i: usize = 0;
    assert(all.take(0) =~= Seq::empty());
    while i < tickets.len()
        invariant
            i <= tickets@.len(),
            all == tickets_view(tickets@),
            of == list_of_ads(ads@),
            r@ == came_of(all.take(i as int), of, p@),
        decreases tickets.len() - i,
    {
        let t = &tickets[i];
        assert(all.take(i + 1).drop_last() =~= all.take(i as int));
        assert(all[i as int] == t@);
        proof {
            law_came_narrows(all.take(i as int), of, p@);
        }
        let day = match p.date {
            Some(d) => match &t.date {
                Some(x) => same(x.as_str(), d),
                None => false,
            },
            None => true,
        };
        if day && has_ad(ads, t.ad, p) {
            assert(ticket_in(of, t@, p@));
            r = TargetingCrm {
                l_leads: r.l_leads + 1,
                qualified: r.qualified + bit(t.qualified),
                visit: r.visit + bit(t.visit),
                booking: r.booking + bit(t.booking),
            };
        }
        i += 1;
    }
    assert(all.take(i as int) =~= all);
    r
}

} // verus!
