//! What holds of the ads of a report: what they are, what they delivered, and which tickets they
//! brought.

use crate::crm::{delivery_in, is_booked, is_qualified, is_visited};
use crate::json::JsonV;
use crate::report::ads::{
    ad_at, ads_of, came_of, creative_of, facts_of, head_of, ids_of, ist_day, rows_between, sum_of,
    tickets_of, unattributed_of, AdV, FactV, PartV, TicketV,
};
use crate::report::group::base_targeting_of;
use crate::schema::CreativeRowV;
use crate::sets::{is_ascending, law_sorted_set, lemma_place_of, sorted_set};
use crate::snapshot::{count_in, AdsDailyRowV};
use crate::strs::text_lt;
use crate::window::laws::{ad_named, says};
use crate::window::{ist_midnight, WindowV};
use vstd::prelude::*;

verus! {

// Rows

/// The rows of the days are just those whose date is neither before the first day nor after the
/// last one, in their order.
pub proof fn law_rows_of_the_days(rows: Seq<AdsDailyRowV>, w: WindowV)
    ensures
        rows_between(rows, w) == Seq::new(rows.len(), |i: int| i).filter(
            |i: int|
                !text_lt(rows[i].date_start, w.since) && !text_lt(w.until, rows[i].date_start),
        ),
{
    assert(rows.take(rows.len() as int) =~= rows);
    lemma_rows_of_the_days(rows, rows, w);
}

proof fn lemma_rows_of_the_days(all: Seq<AdsDailyRowV>, rows: Seq<AdsDailyRowV>, w: WindowV)
    requires
        rows.len() <= all.len(),
        rows == all.take(rows.len() as int),
    ensures
        rows_between(rows, w) == Seq::new(rows.len(), |i: int| i).filter(
            |i: int|
                !text_lt(all[i].date_start, w.since) && !text_lt(w.until, all[i].date_start),
        ),
    decreases rows.len(),
{
    reveal(Seq::filter);
    let n = Seq::new(rows.len(), |i: int| i);
    if rows.len() > 0 {
        let rest = rows.drop_last();
        assert(rest =~= all.take(rest.len() as int));
        lemma_rows_of_the_days(all, rest, w);
        assert(n.drop_last() =~= Seq::new(rest.len(), |i: int| i));
        assert(rows.last() == all[rows.len() - 1]);
    } else {
        assert(n =~= Seq::empty());
    }
}

/// The row that says what an ad is has the id of the ad. Among the picked rows of the ad it is the
/// first one with a name, and where none has a name, the last one.
pub proof fn law_head_is_the_first_named(rows: Seq<AdsDailyRowV>, picked: Seq<int>, ad: Seq<char>)
    ensures
        head_of(rows, picked, ad) is Some <==> exists|k: int|
            0 <= k < picked.len() && rows[#[trigger] picked[k]].ad_id == ad,
        head_of(rows, picked, ad) matches Some(i) ==> exists|k: int|
            0 <= k < picked.len() && #[trigger] picked[k] == i && rows[i].ad_id == ad && (forall|
                j: int,
            |
                0 <= j < k && rows[#[trigger] picked[j]].ad_id == ad
                    ==> rows[picked[j]].ad_name.len() == 0) && (rows[i].ad_name.len() == 0
                ==> forall|j: int|
                k < j < picked.len() ==> rows[#[trigger] picked[j]].ad_id != ad),
    decreases picked.len(),
{
    if picked.len() > 0 {
        let rest = picked.drop_last();
        law_head_is_the_first_named(rows, rest, ad);
        assert(forall|k: int| 0 <= k < rest.len() ==> #[trigger] rest[k] == picked[k]);
        let n = picked.len() - 1;
        assert(picked[n] == picked.last());
        match head_of(rows, rest, ad) {
            Some(i) => {
                let k = choose|k: int|
                    0 <= k < rest.len() && #[trigger] rest[k] == i && rows[i].ad_id == ad && (
                    forall|j: int|
                        0 <= j < k && rows[#[trigger] rest[j]].ad_id == ad
                            ==> rows[rest[j]].ad_name.len() == 0) && (rows[i].ad_name.len() == 0
                        ==> forall|j: int|
                        k < j < rest.len() ==> rows[#[trigger] rest[j]].ad_id != ad);
                assert(picked[k] == i);
                assert forall|j: int| 0 <= j < k && rows[#[trigger] picked[j]].ad_id == ad implies rows[picked[j]].ad_name.len()
                    == 0 by {
                    assert(rest[j] == picked[j]);
                }
                if rows[i].ad_name.len() == 0 {
                    assert forall|j: int| k < j < n implies rows[#[trigger] picked[j]].ad_id
                        != ad by {
                        assert(rest[j] == picked[j]);
                    }
                    assert forall|j: int| 0 <= j < n && rows[#[trigger] picked[j]].ad_id
                        == ad implies rows[picked[j]].ad_name.len() == 0 by {
                        assert(rest[j] == picked[j]);
                    }
                }
            },
            None => {
                assert forall|j: int| 0 <= j < n implies rows[#[trigger] picked[j]].ad_id
                    != ad by {
                    assert(rest[j] == picked[j]);
                }
            },
        }
    }
}

/// What is known of the creative of an ad stands in the last row of that ad.
pub proof fn law_creative_is_the_last_of_its_ad(rows: Seq<CreativeRowV>, ad: Seq<char>)
    ensures
        match creative_of(rows, ad) {
            Some(c) => exists|k: int|
                0 <= k < rows.len() && #[trigger] rows[k] == c && c.ad_id == ad && forall|j: int|
                    k < j < rows.len() ==> (#[trigger] rows[j]).ad_id != ad,
            None => forall|k: int| 0 <= k < rows.len() ==> (#[trigger] rows[k]).ad_id != ad,
        },
    decreases rows.len(),
{
    if rows.len() > 0 {
        let rest = rows.drop_last();
        law_creative_is_the_last_of_its_ad(rest, ad);
        assert(forall|k: int| 0 <= k < rest.len() ==> #[trigger] rest[k] == rows[k]);
        assert(rows[rows.len() - 1] == rows.last());
        if rows.last().ad_id != ad {
            match creative_of(rest, ad) {
                Some(c) => {
                    let k = choose|k: int|
                        0 <= k < rest.len() && #[trigger] rest[k] == c && c.ad_id == ad && forall|
                            j: int,
                        |
                            k < j < rest.len() ==> (#[trigger] rest[j]).ad_id != ad;
                    assert(rows[k] == c);
                    assert forall|j: int| k < j < rows.len() implies (#[trigger] rows[j]).ad_id
                        != ad by {
                        if j < rest.len() {
                            assert(rest[j] == rows[j]);
                        }
                    }
                },
                None => {
                    assert forall|k: int| 0 <= k < rows.len() implies (#[trigger] rows[k]).ad_id
                        != ad by {
                        if k < rest.len() {
                            assert(rest[k] == rows[k]);
                        }
                    }
                },
            }
        }
    }
}

/// Every ad of the picked rows is there once, in the order of the ids. It has product, name and
/// campaign of the row that says what it is, the targeting under the name of its adset, and its
/// creative.
pub proof fn law_ads_are_told_by_their_rows(
    rows: Seq<AdsDailyRowV>,
    picked: Seq<int>,
    creatives: Seq<CreativeRowV>,
)
    ensures
        ({
            let ads = ads_of(rows, picked, creatives);
            &&& is_ascending(ids_of(ads))
            &&& forall|k: int|
                0 <= k < picked.len() ==> ids_of(ads).contains(rows[#[trigger] picked[k]].ad_id)
            &&& forall|a: int|
                0 <= a < ads.len() ==> {
                    let ad = #[trigger] ads[a];
                    &&& head_of(rows, picked, ad.id) matches Some(i) && {
                        &&& ad.product == rows[i]._product
                        &&& ad.name == rows[i].ad_name
                        &&& ad.campaign == rows[i].campaign_name
                        &&& ad.targeting == base_targeting_of(rows[i].adset_name)
                    }
                    &&& ad.creative == creative_of(creatives, ad.id)
                }
        }),
{
    let ads = ads_of(rows, picked, creatives);
    let ids = crate::report::ads::ad_ids_of(rows, picked);
    law_sorted_set(ids);
    assert(ids_of(ads) =~= sorted_set(ids));
    assert forall|k: int| 0 <= k < picked.len() implies ids_of(ads).contains(
        rows[#[trigger] picked[k]].ad_id,
    ) by {
        assert(ids[k] == rows[picked[k]].ad_id);
        assert(ids.contains(rows[picked[k]].ad_id));
    }
    assert forall|a: int| 0 <= a < ads.len() implies head_of(
        rows,
        picked,
        (#[trigger] ads[a]).id,
    ) is Some by {
        assert(ids_of(ads)[a] == ads[a].id);
        assert(sorted_set(ids).contains(ads[a].id));
        let k = choose|k: int| 0 <= k < ids.len() && ids[k] == ads[a].id;
        assert(rows[picked[k]].ad_id == ads[a].id);
        law_head_is_the_first_named(rows, picked, ads[a].id);
    }
}

// Deliveries

/// What a row adds goes to its ad, on its date: its impressions, its reach, the clicks on its link
/// and its leads.
pub proof fn law_facts_are_of_their_rows(
    rows: Seq<AdsDailyRowV>,
    picked: Seq<int>,
    m: Seq<u64>,
    creatives: Seq<CreativeRowV>,
    k: int,
)
    requires
        0 <= k < picked.len(),
    ensures
        ({
            let ads = ads_of(rows, picked, creatives);
            let f = facts_of(rows, picked, m, ads)[k];
            let r = rows[picked[k]];
            &&& 0 <= f.ad < ads.len()
            &&& ads[f.ad].id == r.ad_id
            &&& f.date == r.date_start
            &&& f.impressions == count_in(r.impressions)
            &&& f.reach == count_in(r.reach)
            &&& f.clicks == count_in(r.inline_link_clicks)
            &&& f.m_leads == m[picked[k]]
        }),
{
    let ads = ads_of(rows, picked, creatives);
    law_ads_are_told_by_their_rows(rows, picked, creatives);
    lemma_place_of(ids_of(ads), rows[picked[k]].ad_id);
}

/// Whether something of an ad and a day belongs to a part: the product and the group are those of
/// the part, and so are the targeting and the day where the part has them.
pub open spec fn belongs(ads: Seq<AdV>, ad: int, date: Option<Seq<char>>, p: PartV) -> bool {
    &&& 0 <= ad < ads.len()
    &&& ads[ad].product == p.product && ads[ad].key == p.key
    &&& match p.targeting {
        Some(t) => ads[ad].targeting == t,
        None => true,
    }
    &&& match p.date {
        Some(d) => date == Some(d),
        None => true,
    }
}

/// A part delivered the sum of what belongs to it, and of nothing else.
pub proof fn law_part_is_the_sum_of_its_own(facts: Seq<FactV>, ads: Seq<AdV>, p: PartV)
    ensures
        ({
            let ours = facts.filter(|f: FactV| belongs(ads, f.ad, Some(f.date), p));
            let s = sum_of(facts, ads, p);
            &&& s.impressions == ours.fold_left(0int, |n: int, f: FactV| n + f.impressions)
            &&& s.reach == ours.fold_left(0int, |n: int, f: FactV| n + f.reach)
            &&& s.clicks == ours.fold_left(0int, |n: int, f: FactV| n + f.clicks)
            &&& s.m_leads == ours.fold_left(0int, |n: int, f: FactV| n + f.m_leads)
        }),
    decreases facts.len(),
{
    reveal(Seq::filter);
    if facts.len() > 0 {
        law_part_is_the_sum_of_its_own(facts.drop_last(), ads, p);
        let own = |f: FactV| belongs(ads, f.ad, Some(f.date), p);
        let before = facts.drop_last().filter(own);
        let f = facts.last();
        assert(before.push(f).drop_last() =~= before);
        assert(crate::report::ads::fact_in(ads, f, p) <==> own(f));
    }
}

// Tickets

/// The day of a point in time is the one in which it lies: it does not begin after it, and the next
/// one does.
pub proof fn law_point_lies_in_its_day(at: int)
    ensures
        ist_midnight(ist_day(at)) <= at,
        at < ist_midnight(ist_day(at) + 1),
{
}

/// Whether a ticket was delivered on one of the days, and one of the ads brought it.
pub open spec fn is_ours(t: JsonV, ads: Seq<AdV>, w: WindowV) -> bool {
    (delivery_in(t) matches Some(at) && w.from <= at && at < w.to) && ids_of(ads).contains(
        ad_named(t),
    )
}

/// Just the tickets that were delivered on one of the days and that one of the ads brought are
/// counted, each under its ad and with its milestones. Those of the days that none of the ads
/// brought are counted apart.
pub proof fn law_tickets_are_under_their_ads(
    tickets: Seq<JsonV>,
    ads: Seq<AdV>,
    w: WindowV,
)
    requires
        w.from > i64::MIN,
    ensures
        ({
            let ours = tickets.filter(|t: JsonV| is_ours(t, ads, w));
            let counted = tickets_of(tickets, ads, w);
            &&& counted.len() == ours.len()
            &&& forall|k: int|
                0 <= k < counted.len() ==> {
                    let c = #[trigger] counted[k];
                    let t = ours[k];
                    &&& 0 <= c.ad < ads.len()
                    &&& ads[c.ad].id == ad_named(t)
                    &&& c.qualified == is_qualified(says(t, "stage"@))
                    &&& c.visit == is_visited(says(t, "stage"@))
                    &&& c.booking == is_booked(says(t, "stage"@), says(t, "funnel"@))
                    &&& delivery_in(t) matches Some(at) && c.date == crate::fetch::shown_day(
                        ist_day(at as int),
                    )
                }
            &&& unattributed_of(tickets, ads, w) == tickets.filter(
                |t: JsonV|
                    (delivery_in(t) matches Some(at) && w.from <= at && at < w.to) && !ids_of(
                        ads,
                    ).contains(ad_named(t)),
            ).len()
        }),
    decreases tickets.len(),
{
    reveal(Seq::filter);
    if tickets.len() > 0 {
        law_tickets_are_under_their_ads(tickets.drop_last(), ads, w);
        let t = tickets.last();
        lemma_place_of(ids_of(ads), ad_named(t));
        assert(crate::report::segmentation::ad_or_none(t) == ad_named(t));
        assert(ad_at(ads, ad_named(t)) < ads.len() ==> ids_of(ads)[ad_at(ads, ad_named(t))]
            == ads[ad_at(ads, ad_named(t))].id);
    }
}

/// A part brought the tickets that belong to it, and of these those count as qualified, visited and
/// booked that are.
pub proof fn law_part_counts_its_own_tickets(tickets: Seq<TicketV>, ads: Seq<AdV>, p: PartV)
    ensures
        ({
            let ours = tickets.filter(|t: TicketV| belongs(ads, t.ad, t.date, p));
            let c = came_of(tickets, ads, p);
            &&& c.l_leads == ours.len()
            &&& c.qualified == ours.filter(|t: TicketV| t.qualified).len()
            &&& c.visit == ours.filter(|t: TicketV| t.visit).len()
            &&& c.booking == ours.filter(|t: TicketV| t.booking).len()
        }),
    decreases tickets.len(),
{
    reveal(Seq::filter);
    if tickets.len() > 0 {
        law_part_counts_its_own_tickets(tickets.drop_last(), ads, p);
        let own = |t: TicketV| belongs(ads, t.ad, t.date, p);
        let before = tickets.drop_last().filter(own);
        let t = tickets.last();
        assert(before.push(t).drop_last() =~= before);
        assert(crate::report::ads::ticket_in(ads, t, p) <==> own(t));
    }
}

} // verus!
