//! What the card of a group tells.

use crate::json::laws::{below, law_two_names};
use crate::json::{member, JsonV};
use crate::rank::is_higher;
use crate::report::ads::laws::{
    belongs, law_part_counts_its_own_tickets, law_part_is_the_sum_of_its_own,
};
use crate::report::ads::{is_delivered, AdV, FactV, PartV, TicketV};
use crate::report::card::{
    aimed_at, breakdown_of, bucket_of, campaigns_of, card_of, created_of, display_name_of, image_of,
    is_shown, members, most_of, names_of, permalink_of, segmentation_of, stage_of, status_of,
    times_in, BookV, CardV,
};
use crate::report::segmentation::{is_split, law_kinds_add_up, LeadKind};
use crate::report::summary::{card_sum, cards_sum, rank_key};
use crate::schema::StatusCode;
use crate::sets::{law_sorted_set, sorted_set};
use crate::strs::text_lt;
use vstd::prelude::*;

verus! {

// Members

/// The ads of a group are those of its product and its key, in their order.
pub proof fn law_members_share_the_key(ads: Seq<AdV>, product: Seq<char>, key: Seq<char>)
    ensures
        members(ads, product, key) == ads.filter(|a: AdV| a.product == product && a.key == key),
    decreases ads.len(),
{
    reveal(Seq::filter);
    if ads.len() > 0 {
        law_members_share_the_key(ads.drop_last(), product, key);
    }
}

// The name

proof fn lemma_times(v: Seq<Seq<char>>, t: Seq<char>)
    ensures
        times_in(v, t) == v.filter(|x: Seq<char>| x == t).len(),
    decreases v.len(),
{
    reveal(Seq::filter);
    if v.len() > 0 {
        lemma_times(v.drop_last(), t);
    }
}

proof fn lemma_most(each: Seq<Seq<char>>, v: Seq<Seq<char>>)
    requires
        each.len() > 0,
    ensures
        most_of(each, v) matches Some(b) && each.contains(b) && forall|i: int|
            0 <= i < each.len() ==> times_in(v, #[trigger] each[i]) <= times_in(v, b),
    decreases each.len(),
{
    let rest = each.drop_last();
    assert(each[each.len() - 1] == each.last());
    if rest.len() > 0 {
        lemma_most(rest, v);
        assert(forall|i: int| 0 <= i < rest.len() ==> rest[i] == #[trigger] each[i]);
        let b = most_of(rest, v)->0;
        let k = choose|k: int| 0 <= k < rest.len() && rest[k] == b;
        assert(each[k] == b);
    } else {
        assert(most_of(rest, v) is None);
    }
}

/// The name of a group is that of one of its ads, and no name is that of more of them.
pub proof fn law_name_is_that_of_most(g: Seq<AdV>, i: int)
    requires
        0 <= i < g.len(),
    ensures
        ({
            let names = g.map_values(
                |a: AdV|
                    if a.name.len() > 0 {
                        a.name
                    } else {
                        "-"@
                    },
            );
            let name = display_name_of(g);
            &&& names.contains(name)
            &&& names.filter(|x: Seq<char>| x == names[i]).len() <= names.filter(
                |x: Seq<char>| x == name,
            ).len()
        }),
{
    let names = g.map_values(
        |a: AdV|
            if a.name.len() > 0 {
                a.name
            } else {
                "-"@
            },
    );
    assert(names =~= names_of(g));
    let each = sorted_set(names);
    law_sorted_set(names);
    assert(names.contains(names[i]));
    assert(each.contains(names[i]));
    lemma_most(each, names);
    let name = display_name_of(g);
    let k = choose|k: int| 0 <= k < each.len() && each[k] == names[i];
    assert(times_in(names, each[k]) <= times_in(names, name));
    assert(each.contains(name));
    lemma_times(names, names[i]);
    lemma_times(names, name);
    assert(names.contains(name));
    let t = names[i];
    assert((|x: Seq<char>| x == names[i]) =~= (|x: Seq<char>| x == t));
    assert(names.filter(|x: Seq<char>| x == names[i]).len() == times_in(names, t));
}

// What the ads say

/// The campaigns of a group are just those that its ads name, each once.
pub proof fn law_campaigns_are_named_once(g: Seq<AdV>)
    ensures
        campaigns_of(g).no_duplicates(),
        forall|c: Seq<char>|
            #[trigger] campaigns_of(g).contains(c) <==> c.len() > 0 && exists|i: int|
                0 <= i < g.len() && (#[trigger] g[i]).campaign == c,
    decreases g.len(),
{
    if g.len() > 0 {
        let rest = g.drop_last();
        law_campaigns_are_named_once(rest);
        let before = campaigns_of(rest);
        let now = campaigns_of(g);
        let last = g.last().campaign;
        assert(forall|i: int| 0 <= i < rest.len() ==> rest[i] == #[trigger] g[i]);
        assert(forall|i: int| 0 <= i < rest.len() ==> #[trigger] rest[i] == g[i]);
        assert(g[g.len() - 1] == g.last());
        assert forall|c: Seq<char>|
            #[trigger] now.contains(c) <==> c.len() > 0 && exists|i: int|
                0 <= i < g.len() && (#[trigger] g[i]).campaign == c by {
            if now.contains(c) {
                let k = choose|k: int| 0 <= k < now.len() && now[k] == c;
                if k < before.len() {
                    assert(before[k] == c);
                    assert(before.contains(c));
                    let i = choose|i: int| 0 <= i < rest.len() && (#[trigger] rest[i]).campaign == c;
                    assert(g[i].campaign == c);
                } else {
                    assert(g[g.len() - 1].campaign == c);
                }
            }
            if c.len() > 0 && exists|i: int| 0 <= i < g.len() && (#[trigger] g[i]).campaign == c {
                let i = choose|i: int| 0 <= i < g.len() && (#[trigger] g[i]).campaign == c;
                if i < rest.len() {
                    assert(rest[i].campaign == c);
                    assert(before.contains(c));
                }
                if before.contains(c) {
                    let k = choose|k: int| 0 <= k < before.len() && before[k] == c;
                    assert(now[k] == c);
                } else {
                    assert(now[before.len() as int] == c);
                }
            }
        }
    }
}

/// The day on which an ad was created: the first ten characters of the time.
pub open spec fn created_on(a: AdV) -> Option<Seq<char>> {
    match a.creative {
        Some(c) => match c.created_time {
            Some(t) => Some(
                if t.len() > 10 {
                    t.take(10)
                } else {
                    t
                },
            ),
            None => None,
        },
        None => None,
    }
}

/// A group was created on the earliest of the days of its ads.
pub proof fn law_created_is_the_earliest(g: Seq<AdV>)
    ensures
        match created_of(g) {
            Some(d) => (exists|i: int| 0 <= i < g.len() && created_on(#[trigger] g[i]) == Some(d))
                && forall|i: int|
                0 <= i < g.len() ==> (created_on(#[trigger] g[i]) matches Some(x) ==> !text_lt(x, d)),
            None => forall|i: int| 0 <= i < g.len() ==> created_on(#[trigger] g[i]) is None,
        },
    decreases g.len(),
{
    if g.len() > 0 {
        let rest = g.drop_last();
        law_created_is_the_earliest(rest);
        assert(forall|i: int| 0 <= i < rest.len() ==> rest[i] == #[trigger] g[i]);
        assert(forall|i: int| 0 <= i < rest.len() ==> #[trigger] rest[i] == g[i]);
        assert(g[g.len() - 1] == g.last());
        assert(crate::report::card::created_day(g.last()) == created_on(g.last()));
        match (created_of(rest), created_on(g.last())) {
            (Some(p), Some(d)) => {
                crate::sets::lemma_lt_irreflexive(d);
                let i = choose|i: int|
                    0 <= i < rest.len() && created_on(#[trigger] rest[i]) == Some(p);
                assert(created_on(g[i]) == Some(p));
                if text_lt(d, p) {
                    assert forall|i: int| 0 <= i < g.len() implies (created_on(
                        #[trigger] g[i],
                    ) matches Some(x) ==> !text_lt(x, d)) by {
                        if i < rest.len() {
                            assert(rest[i] == g[i]);
                            match created_on(g[i]) {
                                Some(x) => {
                                    if text_lt(x, d) {
                                        crate::sets::lemma_lt_transitive(x, d, p);
                                    }
                                },
                                None => {},
                            }
                        }
                    }
                }
            },
            (None, Some(d)) => {
                crate::sets::lemma_lt_irreflexive(d);
            },
            (Some(p), None) => {
                let i = choose|i: int|
                    0 <= i < rest.len() && created_on(#[trigger] rest[i]) == Some(p);
                assert(created_on(g[i]) == Some(p));
            },
            _ => {},
        }
    }
}

/// Whether an ad has a link.
pub open spec fn has_link(a: AdV) -> bool {
    a.creative matches Some(c) && c.permalink matches Some(p) && p.len() > 0
}

/// The link of a group is that of the first of its ads that has one.
pub proof fn law_link_is_the_first(g: Seq<AdV>)
    ensures
        match permalink_of(g) {
            Some(p) => exists|i: int|
                0 <= i < g.len() && has_link(#[trigger] g[i]) && g[i].creative->0.permalink == Some(p)
                    && forall|j: int| 0 <= j < i ==> !has_link(#[trigger] g[j]),
            None => forall|i: int| 0 <= i < g.len() ==> !has_link(#[trigger] g[i]),
        },
    decreases g.len(),
{
    if g.len() > 0 {
        let rest = g.drop_last();
        law_link_is_the_first(rest);
        assert(forall|i: int| 0 <= i < rest.len() ==> rest[i] == #[trigger] g[i]);
        assert(forall|i: int| 0 <= i < rest.len() ==> #[trigger] rest[i] == g[i]);
        assert(g[g.len() - 1] == g.last());
        match permalink_of(rest) {
            Some(p) => {
                let i = choose|i: int|
                    0 <= i < rest.len() && has_link(#[trigger] rest[i])
                        && rest[i].creative->0.permalink == Some(p) && forall|j: int|
                        0 <= j < i ==> !has_link(#[trigger] rest[j]);
                assert(has_link(g[i]));
                assert forall|j: int| 0 <= j < i implies !has_link(#[trigger] g[j]) by {
                    assert(rest[j] == g[j]);
                }
            },
            None => {
                assert forall|j: int| 0 <= j < g.len() - 1 implies !has_link(#[trigger] g[j]) by {
                    assert(rest[j] == g[j]);
                }
            },
        }
    }
}

/// Whether an ad has an image.
pub open spec fn has_image(a: AdV) -> bool {
    a.creative matches Some(c) && c.asset is Some
}

/// The image of a group is that of the first of its ads that has one.
pub proof fn law_image_is_the_first(g: Seq<AdV>)
    ensures
        match image_of(g) {
            Some(p) => exists|i: int|
                0 <= i < g.len() && has_image(#[trigger] g[i]) && p.sha256
                    == g[i].creative->0.asset->0.sha256 && forall|j: int|
                    0 <= j < i ==> !has_image(#[trigger] g[j]),
            None => forall|i: int| 0 <= i < g.len() ==> !has_image(#[trigger] g[i]),
        },
    decreases g.len(),
{
    if g.len() > 0 {
        let rest = g.drop_last();
        law_image_is_the_first(rest);
        assert(forall|i: int| 0 <= i < rest.len() ==> rest[i] == #[trigger] g[i]);
        assert(forall|i: int| 0 <= i < rest.len() ==> #[trigger] rest[i] == g[i]);
        assert(g[g.len() - 1] == g.last());
        match image_of(rest) {
            Some(p) => {
                let i = choose|i: int|
                    0 <= i < rest.len() && has_image(#[trigger] rest[i]) && p.sha256
                        == rest[i].creative->0.asset->0.sha256 && forall|j: int|
                        0 <= j < i ==> !has_image(#[trigger] rest[j]);
                assert(has_image(g[i]));
                assert forall|j: int| 0 <= j < i implies !has_image(#[trigger] g[j]) by {
                    assert(rest[j] == g[j]);
                }
            },
            None => {
                assert forall|j: int| 0 <= j < g.len() - 1 implies !has_image(#[trigger] g[j]) by {
                    assert(rest[j] == g[j]);
                }
            },
        }
    }
}

// Status

/// Whether an ad has a status.
pub open spec fn stands(a: AdV, status: Seq<char>) -> bool {
    a.creative matches Some(c) && c.status matches Some(s) && s == status
}

/// Whether an ad is live, and its ad set is at a stage of learning.
pub open spec fn learns(a: AdV, adsets: JsonV, stage: Seq<char>) -> bool {
    &&& stands(a, "ACTIVE"@)
    &&& a.creative->0.adset_id.len() > 0
    &&& below(
        below(member(adsets, a.creative->0.adset_id), "learning_stage_info"@),
        "status"@,
    ) == Some(JsonV::Text(stage))
}

proof fn lemma_stage(adsets: JsonV, id: Seq<char>, stage: Seq<char>)
    ensures
        stage_of(adsets, id) == Some(stage) <==> below(
            below(member(adsets, id), "learning_stage_info"@),
            "status"@,
        ) == Some(JsonV::Text(stage)),
{
    match member(adsets, id) {
        Some(a) => {
            reveal_strlit("learning_stage_info");
            reveal_strlit("status");
            reveal_strlit("/learning_stage_info/status");
            assert("/learning_stage_info/status"@ =~= seq!['/'] + "learning_stage_info"@ + seq!['/']
                + "status"@);
            law_two_names(a, "/learning_stage_info/status"@, "learning_stage_info"@, "status"@);
        },
        None => {},
    }
}

/// A group with a live ad is live, and learning where the ad set of a live one learns, or could not
/// learn. One without is in review or rejected where one of its ads is, in that order, and else
/// stopped.
pub proof fn law_status_is_that_of_the_ads(g: Seq<AdV>, adsets: JsonV)
    ensures
        ({
            let s = status_of(g, adsets);
            let live = exists|i: int| 0 <= i < g.len() && stands(#[trigger] g[i], "ACTIVE"@);
            let learning = exists|i: int|
                0 <= i < g.len() && learns(#[trigger] g[i], adsets, "LEARNING"@);
            let limited = exists|i: int|
                0 <= i < g.len() && learns(#[trigger] g[i], adsets, "FAIL"@);
            let pending = exists|i: int|
                0 <= i < g.len() && stands(#[trigger] g[i], "PENDING_REVIEW"@);
            let rejected = exists|i: int|
                0 <= i < g.len() && stands(#[trigger] g[i], "DISAPPROVED"@);
            &&& live && learning ==> s.code == StatusCode::Learn && s.label == "Live - learning"@
            &&& live && !learning && limited ==> s.code == StatusCode::Learn && s.label
                == "Live - learning limited"@
            &&& live && !learning && !limited ==> s.code == StatusCode::Live && s.label == "Live"@
            &&& !live && pending ==> s.code == StatusCode::Learn && s.label == "In review"@
            &&& !live && !pending && rejected ==> s.code == StatusCode::Stop && s.label
                == "Rejected"@
            &&& !live && !pending && !rejected ==> s.code == StatusCode::Stop && s.label
                == "Stopped"@
        }),
{
    assert forall|i: int, status: Seq<char>|
        0 <= i < g.len() implies #[trigger] crate::report::card::is_status(g[i], status) == stands(
        g[i],
        status,
    ) by {}
    assert forall|i: int, stage: Seq<char>|
        0 <= i < g.len() implies #[trigger] crate::report::card::is_at_stage(g[i], adsets, stage)
        == learns(g[i], adsets, stage) by {
        lemma_stage(adsets, g[i].creative->0.adset_id, stage);
    }
    lemma_any_status(g, "ACTIVE"@);
    lemma_any_status(g, "PENDING_REVIEW"@);
    lemma_any_status(g, "DISAPPROVED"@);
    lemma_any_stage(g, adsets, "LEARNING"@);
    lemma_any_stage(g, adsets, "FAIL"@);
}

proof fn lemma_any_status(g: Seq<AdV>, status: Seq<char>)
    ensures
        crate::report::card::has_status(g, status) <==> exists|i: int|
            0 <= i < g.len() && stands(#[trigger] g[i], status),
{
    if crate::report::card::has_status(g, status) {
        let i = choose|i: int|
            0 <= i < g.len() && crate::report::card::is_status(#[trigger] g[i], status);
        assert(stands(g[i], status));
    }
    if exists|i: int| 0 <= i < g.len() && stands(#[trigger] g[i], status) {
        let i = choose|i: int| 0 <= i < g.len() && stands(#[trigger] g[i], status);
        assert(crate::report::card::is_status(g[i], status));
    }
}

proof fn lemma_any_stage(g: Seq<AdV>, adsets: JsonV, stage: Seq<char>)
    ensures
        crate::report::card::has_stage(g, adsets, stage) <==> exists|i: int|
            0 <= i < g.len() && learns(#[trigger] g[i], adsets, stage),
{
    if crate::report::card::has_stage(g, adsets, stage) {
        let i = choose|i: int|
            0 <= i < g.len() && crate::report::card::is_at_stage(#[trigger] g[i], adsets, stage);
        lemma_stage(adsets, g[i].creative->0.adset_id, stage);
        assert(learns(g[i], adsets, stage));
    }
    if exists|i: int| 0 <= i < g.len() && learns(#[trigger] g[i], adsets, stage) {
        let i = choose|i: int| 0 <= i < g.len() && learns(#[trigger] g[i], adsets, stage);
        lemma_stage(adsets, g[i].creative->0.adset_id, stage);
        assert(crate::report::card::is_at_stage(g[i], adsets, stage));
    }
}

// Numbers

/// The card of a group tells what its ads delivered and brought: the impressions, clicks and leads,
/// and the tickets with those that are qualified, visited and booked, step by step under their
/// names. It is shown where there are impressions, leads or tickets.
pub proof fn law_card_tells_its_funnel(b: BookV, product: Seq<char>, key: Seq<char>)
    ensures
        ({
            let c = card_of(b, product, key);
            let p = PartV { product, key, targeting: None, date: None };
            let f = b.facts.filter(|f: FactV| belongs(b.ads, f.ad, Some(f.date), p));
            let t = b.tickets.filter(|t: TicketV| belongs(b.ads, t.ad, t.date, p));
            let impressions = f.fold_left(0int, |n: int, f: FactV| n + f.impressions);
            let clicks = f.fold_left(0int, |n: int, f: FactV| n + f.clicks);
            let leads = f.fold_left(0int, |n: int, f: FactV| n + f.m_leads);
            &&& c.group_key == key
            &&& c.funnel.len() == 7
            &&& c.funnel[0].0 == "Impressions"@ && c.funnel[0].1 == impressions
            &&& c.funnel[1].0 == "Clicks"@ && c.funnel[1].1 == clicks
            &&& c.funnel[2].0 == "M-Leads"@ && c.funnel[2].1 == leads
            &&& c.funnel[3].0 == "L-Leads"@ && c.funnel[3].1 == t.len()
            &&& c.funnel[4].0 == "Qualified"@ && c.funnel[4].1 == t.filter(
                |x: TicketV| x.qualified,
            ).len()
            &&& c.funnel[5].0 == "Visit"@ && c.funnel[5].1 == t.filter(|x: TicketV| x.visit).len()
            &&& c.funnel[6].0 == "Booking"@ && c.funnel[6].1 == t.filter(
                |x: TicketV| x.booking,
            ).len()
            &&& c.delivery.sum.impressions == impressions
            &&& c.delivery.sum.clicks == clicks
            &&& c.delivery.sum.m_leads == leads
            &&& is_shown(c) <==> impressions > 0 || leads > 0 || t.len() > 0
        }),
{
    let p = PartV { product, key, targeting: None, date: None };
    law_part_is_the_sum_of_its_own(b.facts, b.ads, p);
    law_part_counts_its_own_tickets(b.tickets, b.ads, p);
}

/// What one targeting of a group brought is what its ads with that targeting did; their reach is
/// not told.
pub proof fn law_breakdown_tells_its_targeting(
    b: BookV,
    g: Seq<AdV>,
    product: Seq<char>,
    key: Seq<char>,
    t: Seq<char>,
)
    ensures
        ({
            let d = breakdown_of(b, g, product, key, t);
            let p = PartV { product, key, targeting: Some(t), date: None };
            let f = b.facts.filter(|f: FactV| belongs(b.ads, f.ad, Some(f.date), p));
            let k = b.tickets.filter(|x: TicketV| belongs(b.ads, x.ad, x.date, p));
            &&& d.targeting == t
            &&& d.delivery.sum.impressions == f.fold_left(
                0int,
                |n: int, f: FactV| n + f.impressions,
            )
            &&& d.delivery.sum.clicks == f.fold_left(0int, |n: int, f: FactV| n + f.clicks)
            &&& d.delivery.sum.m_leads == f.fold_left(0int, |n: int, f: FactV| n + f.m_leads)
            &&& d.delivery.sum.reach == 0
            &&& d.came.l_leads == k.len()
            &&& d.came.qualified == k.filter(|x: TicketV| x.qualified).len()
            &&& d.came.visit == k.filter(|x: TicketV| x.visit).len()
            &&& d.came.booking == k.filter(|x: TicketV| x.booking).len()
        }),
{
    let p = PartV { product, key, targeting: Some(t), date: None };
    law_part_is_the_sum_of_its_own(b.facts, b.ads, p);
    law_part_counts_its_own_tickets(b.tickets, b.ads, p);
}

/// A day of the trend tells what the group delivered and brought on that day; nothing where nothing
/// was delivered.
pub proof fn law_bucket_tells_its_day(b: BookV, product: Seq<char>, key: Seq<char>, d: Seq<char>)
    ensures
        ({
            let x = bucket_of(b, product, key, d);
            let p = PartV { product, key, targeting: None, date: Some(d) };
            let f = b.facts.filter(|f: FactV| belongs(b.ads, f.ad, Some(f.date), p));
            let k = b.tickets.filter(|t: TicketV| belongs(b.ads, t.ad, t.date, p));
            &&& x.date == d
            &&& x.impressions == f.fold_left(0int, |n: int, f: FactV| n + f.impressions)
            &&& x.clicks == f.fold_left(0int, |n: int, f: FactV| n + f.clicks)
            &&& x.m_leads == f.fold_left(0int, |n: int, f: FactV| n + f.m_leads)
            &&& f.len() > 0 ==> x.came.l_leads == k.len() && x.came.qualified == k.filter(
                |t: TicketV| t.qualified,
            ).len() && x.came.visit == k.filter(|t: TicketV| t.visit).len() && x.came.booking
                == k.filter(|t: TicketV| t.booking).len()
            &&& f.len() == 0 ==> x.came.l_leads == 0 && x.came.qualified == 0 && x.came.visit == 0
                && x.came.booking == 0
        }),
{
    let p = PartV { product, key, targeting: None, date: Some(d) };
    let own = |f: FactV| belongs(b.ads, f.ad, Some(f.date), p);
    let f = b.facts.filter(own);
    law_part_is_the_sum_of_its_own(b.facts, b.ads, p);
    law_part_counts_its_own_tickets(b.tickets, b.ads, p);
    broadcast use vstd::seq_lib::group_filter_ensures;

    if is_delivered(b.facts, b.ads, p) {
        let i = choose|i: int|
            0 <= i < b.facts.len() && crate::report::ads::fact_in(b.ads, #[trigger] b.facts[i], p);
        assert(own(b.facts[i]));
        assert(f.contains(b.facts[i]));
    } else if f.len() > 0 {
        assert(f.contains(f[0]));
        b.facts.lemma_filter_contains_rev(own, f[0]);
        let i = choose|i: int| 0 <= i < b.facts.len() && b.facts[i] == f[0];
        assert(own(f[0]));
        assert(crate::report::ads::fact_in(b.ads, b.facts[i], p));
    }
}

/// The leads of a group are told by their kinds just where its ads have leads.
pub proof fn law_segmentation_counts_its_leads(
    leads: Seq<(Seq<char>, LeadKind)>,
    ads: Seq<Seq<char>>,
)
    requires
        leads.len() <= u64::MAX,
    ensures
        segmentation_of(leads, ads) is Some <==> exists|i: int|
            0 <= i < leads.len() && ads.contains((#[trigger] leads[i]).0),
        segmentation_of(leads, ads) matches Some(s) ==> is_split(s, leads, ads),
{
    law_kinds_add_up(leads, ads);
    lemma_has_leads(leads, ads);
}

proof fn lemma_has_leads(leads: Seq<(Seq<char>, LeadKind)>, ads: Seq<Seq<char>>)
    ensures
        crate::report::segmentation::count_leads(leads, ads) > 0 <==> exists|i: int|
            0 <= i < leads.len() && ads.contains((#[trigger] leads[i]).0),
    decreases leads.len(),
{
    if leads.len() > 0 {
        let rest = leads.drop_last();
        lemma_has_leads(rest, ads);
        assert(forall|i: int| 0 <= i < rest.len() ==> rest[i] == #[trigger] leads[i]);
        assert(forall|i: int| 0 <= i < rest.len() ==> #[trigger] rest[i] == leads[i]);
        assert(leads[leads.len() - 1] == leads.last());
    }
}

// Ranks

/// A card with more bookings goes before one with fewer; of two with as many, the one with more
/// visits; then that with more qualified tickets, with more tickets, with more leads, and on which
/// more was spent.
pub proof fn law_cards_rank_by_what_they_brought(
    a: CardV,
    b: CardV,
    spent_a: u64,
    spent_b: u64,
)
    requires
        a.funnel.len() == 7 && b.funnel.len() == 7,
        forall|i: int| 0 <= i < 7 ==> (#[trigger] a.funnel[i]).1 <= u64::MAX,
        forall|i: int| 0 <= i < 7 ==> (#[trigger] b.funnel[i]).1 <= u64::MAX,
    ensures
        ({
            let before = is_higher(rank_key(a, spent_a), rank_key(b, spent_b));
            let x = a.funnel;
            let y = b.funnel;
            &&& x[6].1 > y[6].1 ==> before
            &&& x[6].1 == y[6].1 && x[5].1 > y[5].1 ==> before
            &&& x[6].1 == y[6].1 && x[5].1 == y[5].1 && x[4].1 > y[4].1 ==> before
            &&& x[6].1 == y[6].1 && x[5].1 == y[5].1 && x[4].1 == y[4].1 && x[3].1 > y[3].1
                ==> before
            &&& x[6].1 == y[6].1 && x[5].1 == y[5].1 && x[4].1 == y[4].1 && x[3].1 == y[3].1
                && x[2].1 > y[2].1 ==> before
            &&& x[6].1 == y[6].1 && x[5].1 == y[5].1 && x[4].1 == y[4].1 && x[3].1 == y[3].1
                && x[2].1 == y[2].1 ==> (before <==> spent_a > spent_b)
        }),
{
    reveal_with_fuel(is_higher, 8);
    assert(a.funnel[2].1 <= u64::MAX && a.funnel[3].1 <= u64::MAX && a.funnel[4].1 <= u64::MAX
        && a.funnel[5].1 <= u64::MAX && a.funnel[6].1 <= u64::MAX);
    assert(b.funnel[2].1 <= u64::MAX && b.funnel[3].1 <= u64::MAX && b.funnel[4].1 <= u64::MAX
        && b.funnel[5].1 <= u64::MAX && b.funnel[6].1 <= u64::MAX);
}

/// The portfolio of cards is the sum of what each of them tells.
pub proof fn law_portfolio_is_a_sum(cards: Seq<CardV>)
    requires
        forall|i: int| 0 <= i < cards.len() ==> (#[trigger] cards[i]).funnel.len() == 7,
    ensures
        ({
            let k = cards_sum(cards);
            &&& k.impressions == cards.fold_left(
                0int,
                |n: int, c: CardV| n + c.delivery.sum.impressions,
            )
            &&& k.clicks == cards.fold_left(0int, |n: int, c: CardV| n + c.delivery.sum.clicks)
            &&& k.m_leads == cards.fold_left(0int, |n: int, c: CardV| n + c.funnel[2].1)
            &&& k.l_leads == cards.fold_left(0int, |n: int, c: CardV| n + c.funnel[3].1)
            &&& k.qualified == cards.fold_left(0int, |n: int, c: CardV| n + c.funnel[4].1)
            &&& k.visit == cards.fold_left(0int, |n: int, c: CardV| n + c.funnel[5].1)
            &&& k.booking == cards.fold_left(0int, |n: int, c: CardV| n + c.funnel[6].1)
        }),
    decreases cards.len(),
{
    if cards.len() > 0 {
        let rest = cards.drop_last();
        assert forall|i: int| 0 <= i < rest.len() implies (#[trigger] rest[i]).funnel.len()
            == 7 by {
            assert(rest[i] == cards[i]);
        }
        law_portfolio_is_a_sum(rest);
        assert(cards[cards.len() - 1] == cards.last());
        assert(card_sum(cards.last()).m_leads == cards.last().funnel[2].1);
    }
}

/// The ads of a group with a targeting are those that have it, in their order.
pub proof fn law_ads_are_aimed_at_their_targeting(g: Seq<AdV>, t: Seq<char>)
    ensures
        aimed_at(g, t) == g.filter(|a: AdV| a.targeting == t),
    decreases g.len(),
{
    reveal(Seq::filter);
    if g.len() > 0 {
        law_ads_are_aimed_at_their_targeting(g.drop_last(), t);
    }
}

} // verus!
