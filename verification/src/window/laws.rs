//! What holds of the days of a report, and of the tickets that fall into them.

use crate::brief::{are_totals, open_debt_in, qualified_in, ProductTotals};
use crate::crm::{delivery_in, is_booked, is_qualified, is_visited, objects_in, tickets_in};
use crate::json::{json_parsed, member, JsonV};
use crate::provider::{law_stored_key_is_found, lookup};
use crate::snapshot::{AdsDailyRowV, SnapshotV};
use crate::strs::has_text;
use crate::window::{
    action_of, actions_by_kind, hit_of, hits_of, ist_midnight, lead_like, lead_types,
    lead_values_from, lead_values_of, places, row_of_ad, rows_in, window_of, Hit, LeadValuesV,
    WindowV,
};
use vstd::prelude::*;

verus! {

// Days

/// The days begin one after the other, each 86400 seconds after the one before it; the epoch begins
/// five and a half hours into its day.
pub proof fn law_midnights_are_a_day_apart(day: int)
    ensures
        ist_midnight(day + 1) == ist_midnight(day) + 86400,
        ist_midnight(719163) + 5 * 3600 + 1800 == 0,
{
}

/// A window of no days is one of a single day. Windows of one date end together, one more day lets
/// a window begin a day earlier, and tickets of the last three days of it are recent.
pub proof fn law_windows_end_together(date: Seq<char>, m: nat, n: nat)
    requires
        0 < m <= n <= u32::MAX,
    ensures
        window_of(date, 0) == window_of(date, 1),
        match (window_of(date, m), window_of(date, n)) {
            (Some(a), Some(b)) => {
                &&& a.until == b.until
                &&& a.to == b.to
                &&& a.lag == b.lag
                &&& a.from - b.from == (n - m) * 86400
                &&& a.to - a.from == m * 86400
                &&& a.to - a.lag == 3 * 86400
                &&& m == n ==> a.since == b.since
                &&& m == 1 ==> a.since == a.until
            },
            _ => true,
        },
{
    match (window_of(date, m), window_of(date, n), crate::dates::day_of(date)) {
        (Some(a), Some(b), Some(d)) => {
            let at = ist_midnight(d as int);
            assert(-300000000000000 < at < 300000000000000);
            assert(a.to == at && b.to == at);
            assert(a.from == at - m * 86400);
            assert(b.from == at - n * 86400);
            assert(a.lag == at - 259200);
        },
        _ => {},
    }
}

// Rows

/// The row of an ad is the first of the picked ones that has its id; there is none where none has.
pub proof fn law_row_is_the_first_of_its_ad(
    rows: Seq<AdsDailyRowV>,
    picked: Seq<int>,
    ad: Seq<char>,
)
    ensures
        match row_of_ad(rows, picked, ad) {
            Some(i) => exists|k: int|
                0 <= k < picked.len() && #[trigger] picked[k] == i && rows[i].ad_id == ad && forall|
                    j: int,
                |
                    0 <= j < k ==> rows[#[trigger] picked[j]].ad_id != ad,
            None => forall|k: int|
                0 <= k < picked.len() ==> rows[#[trigger] picked[k]].ad_id != ad,
        },
    decreases picked.len(),
{
    if picked.len() > 0 {
        let rest = picked.drop_first();
        law_row_is_the_first_of_its_ad(rows, rest, ad);
        assert(forall|k: int| 0 <= k < rest.len() ==> #[trigger] rest[k] == picked[k + 1]);
        if rows[picked[0]].ad_id == ad {
            assert(picked[0] == picked[0]);
        } else {
            match row_of_ad(rows, rest, ad) {
                Some(i) => {
                    let k = choose|k: int|
                        0 <= k < rest.len() && #[trigger] rest[k] == i && rows[i].ad_id == ad
                            && forall|j: int|
                            0 <= j < k ==> rows[#[trigger] rest[j]].ad_id != ad;
                    assert(picked[k + 1] == i);
                    assert forall|j: int| 0 <= j < k + 1 implies rows[#[trigger] picked[j]].ad_id
                        != ad by {
                        if j > 0 {
                            assert(rest[j - 1] == picked[j]);
                        }
                    }
                },
                None => {
                    assert forall|k: int| 0 <= k < picked.len() implies rows[
                        #[trigger] picked[k]
                    ].ad_id != ad by {
                        if k > 0 {
                            assert(rest[k - 1] == picked[k]);
                        }
                    }
                },
            }
        }
    }
}

// Tickets

/// A ticket is qualified in the stages `Contactable`, `Visit`, `Revisit` and `Booking`, visited in
/// the last three of them, and booked in the last one or with the funnel `WON`.
pub proof fn law_stages_tell_the_milestones(stage: Seq<char>, funnel: Seq<char>)
    ensures
        is_qualified("Contactable"@) && is_qualified("Visit"@) && is_qualified("Revisit"@)
            && is_qualified("Booking"@),
        is_visited("Visit"@) && is_visited("Revisit"@) && is_visited("Booking"@),
        is_qualified(stage) ==> seq![
            "Contactable"@,
            "Visit"@,
            "Revisit"@,
            "Booking"@,
        ].contains(stage),
        is_visited(stage) ==> seq!["Visit"@, "Revisit"@, "Booking"@].contains(stage),
        !is_visited("Contactable"@) && !is_qualified("NonContactable"@) && !is_qualified("Lost"@),
        is_booked(stage, "WON"@) && is_booked("Booking"@, funnel),
        is_booked(stage, funnel) ==> stage == "Booking"@ || funnel == "WON"@,
{
    reveal_strlit("Contactable");
    reveal_strlit("NonContactable");
    reveal_strlit("Lost");
    reveal_strlit("Visit");
    reveal_strlit("Revisit");
    reveal_strlit("Booking");
    assert("Contactable"@.len() == 11 && "NonContactable"@.len() == 14 && "Lost"@.len() == 4);
    assert("Visit"@.len() == 5 && "Revisit"@.len() == 7 && "Booking"@.len() == 7);
    let q = seq!["Contactable"@, "Visit"@, "Revisit"@, "Booking"@];
    assert(q[0] == "Contactable"@ && q[1] == "Visit"@ && q[2] == "Revisit"@ && q[3]
        == "Booking"@);
    let v = seq!["Visit"@, "Revisit"@, "Booking"@];
    assert(v[0] == "Visit"@ && v[1] == "Revisit"@ && v[2] == "Booking"@);
}

/// The id of the ad of a ticket, or no characters.
pub open spec fn ad_named(t: JsonV) -> Seq<char> {
    match member(t, "ad_id"@) {
        Some(JsonV::Text(s)) => s,
        _ => match member(t, "adId"@) {
            Some(o) => match member(o, "adId"@) {
                Some(JsonV::Text(s)) => s,
                _ => Seq::empty(),
            },
            None => Seq::empty(),
        },
    }
}

/// Whether a ticket was delivered on one of the days, and one of the picked rows is of its ad.
pub open spec fn is_hit(
    t: JsonV,
    rows: Seq<AdsDailyRowV>,
    picked: Seq<int>,
    w: WindowV,
) -> bool {
    &&& delivery_in(t) matches Some(at) && w.from <= at && at < w.to
    &&& exists|k: int| 0 <= k < picked.len() && rows[#[trigger] picked[k]].ad_id == ad_named(t)
}

/// The text of a member, or no characters.
pub open spec fn says(t: JsonV, key: Seq<char>) -> Seq<char> {
    match member(t, key) {
        Some(JsonV::Text(s)) => s,
        _ => Seq::empty(),
    }
}

/// Just the tickets that were delivered on one of the days and that one of the picked ads brought
/// are hits, in their order. A hit has the first row of its ad, the milestones of the stage and the
/// funnel of its ticket, and is recent where the ticket was delivered in the last three days.
pub proof fn law_hits_are_of_their_tickets(
    tickets: Seq<JsonV>,
    rows: Seq<AdsDailyRowV>,
    picked: Seq<int>,
    w: WindowV,
)
    requires
        w.from > i64::MIN,
        forall|k: int| 0 <= k < picked.len() ==> 0 <= (#[trigger] picked[k]) <= usize::MAX,
    ensures
        ({
            let ours = tickets.filter(|t: JsonV| is_hit(t, rows, picked, w));
            let hits = hits_of(tickets, rows, picked, w);
            &&& hits.len() == ours.len()
            &&& forall|k: int|
                0 <= k < hits.len() ==> {
                    let h = #[trigger] hits[k];
                    let t = ours[k];
                    &&& row_of_ad(rows, picked, ad_named(t)) == Some(h.row as int)
                    &&& h.qualified == is_qualified(says(t, "stage"@))
                    &&& h.visit == is_visited(says(t, "stage"@))
                    &&& h.booking == is_booked(says(t, "stage"@), says(t, "funnel"@))
                    &&& h.recent <==> (delivery_in(t) matches Some(at) && at >= w.lag)
                }
        }),
    decreases tickets.len(),
{
    reveal(Seq::filter);
    if tickets.len() > 0 {
        law_hits_are_of_their_tickets(tickets.drop_last(), rows, picked, w);
        let t = tickets.last();
        law_row_is_the_first_of_its_ad(rows, picked, ad_named(t));
        assert(hit_of(t, rows, picked, w) is Some <==> is_hit(t, rows, picked, w));
    }
}

/// The tickets of an export that is a list are those elements that are objects. Those of a map are
/// the objects in the lists under `tickets`, one campaign after the other.
pub proof fn law_tickets_are_objects(items: Seq<JsonV>, pairs: Seq<(Seq<char>, JsonV)>)
    ensures
        tickets_in(JsonV::List(items)) == items.filter(|t: JsonV| t is Object),
        pairs.len() > 0 && member(pairs.last().1, "tickets"@) == Some(JsonV::List(items))
            ==> tickets_in(JsonV::Object(pairs)) == tickets_in(JsonV::Object(pairs.drop_last()))
            + tickets_in(JsonV::List(items)),
        pairs.len() > 0 && !(member(pairs.last().1, "tickets"@) matches Some(JsonV::List(_)))
            ==> tickets_in(JsonV::Object(pairs)) == tickets_in(JsonV::Object(pairs.drop_last())),
        tickets_in(JsonV::Object(Seq::empty())).len() == 0,
{
    lemma_objects(items);
    if pairs.len() > 0 {
        let before = crate::crm::map_tickets(pairs.drop_last());
        assert(before + Seq::<JsonV>::empty() =~= before);
    }
}

proof fn lemma_objects(items: Seq<JsonV>)
    ensures
        objects_in(items) == items.filter(|t: JsonV| t is Object),
    decreases items.len(),
{
    reveal(Seq::filter);
    if items.len() > 0 {
        lemma_objects(items.drop_last());
    }
}

// Leads

/// The kinds of actions that count as leads, each before those behind it.
pub open spec fn counted_kinds() -> Seq<Seq<char>> {
    seq![
        "onsite_conversion.lead_grouped"@,
        "leadgen_grouped"@,
        "leadgen.other"@,
        "lead"@,
        "offsite_conversion.fb_pixel_lead"@,
    ]
}

/// Whether an action is of a kind.
pub open spec fn is_of_kind(a: JsonV, kind: Seq<char>) -> bool {
    member(a, "action_type"@) == Some(JsonV::Text(kind))
}

proof fn lemma_action_found(actions: Seq<JsonV>, kind: Seq<char>, i: int)
    requires
        0 <= i < actions.len(),
        is_of_kind(actions[i], kind),
        forall|j: int| i < j < actions.len() ==> !is_of_kind(#[trigger] actions[j], kind),
    ensures
        lookup(actions_by_kind(actions), kind) == Some(
            match member(actions[i], "value"@) {
                Some(JsonV::Text(v)) => v,
                _ => "0"@,
            },
        ),
    decreases actions.len(),
{
    let rest = actions.drop_last();
    let before = actions_by_kind(rest);
    match action_of(actions.last()) {
        Some(p) => {
            law_stored_key_is_found(before, p.0, p.1);
        },
        None => {},
    }
    if i < actions.len() - 1 {
        assert(rest[i] == actions[i]);
        assert forall|j: int| i < j < rest.len() implies !is_of_kind(#[trigger] rest[j], kind) by {
            assert(rest[j] == actions[j]);
        }
        lemma_action_found(rest, kind, i);
        assert(!is_of_kind(actions[actions.len() - 1], kind));
        assert(lookup(before, kind) is Some);
    }
}

proof fn lemma_action_missing(actions: Seq<JsonV>, kind: Seq<char>)
    requires
        forall|j: int| 0 <= j < actions.len() ==> !is_of_kind(#[trigger] actions[j], kind),
    ensures
        lookup(actions_by_kind(actions), kind) is None,
    decreases actions.len(),
{
    if actions.len() > 0 {
        let rest = actions.drop_last();
        let before = actions_by_kind(rest);
        assert forall|j: int| 0 <= j < rest.len() implies !is_of_kind(
            #[trigger] rest[j],
            kind,
        ) by {
            assert(rest[j] == actions[j]);
        }
        lemma_action_missing(rest, kind);
        assert(!is_of_kind(actions[actions.len() - 1], kind));
        match action_of(actions.last()) {
            Some(p) => {
                law_stored_key_is_found(before, p.0, p.1);
                assert(lookup(before, kind) is None);
            },
            None => {},
        }
    }
}

/// Where a row has actions of one of the kinds that count, and none of the kinds before it, the
/// value of the last of these actions tells its leads, and nothing else does.
pub proof fn law_first_kind_tells_the_leads(actions: Seq<JsonV>, k: int, i: int)
    requires
        0 <= k < 5,
        0 <= i < actions.len(),
        is_of_kind(actions[i], counted_kinds()[k]),
        forall|j: int|
            i < j < actions.len() ==> !is_of_kind(#[trigger] actions[j], counted_kinds()[k]),
        forall|e: int, j: int|
            0 <= e < k && 0 <= j < actions.len() ==> !is_of_kind(
                #[trigger] actions[j],
                #[trigger] counted_kinds()[e],
            ),
    ensures
        lead_values_of(actions) == LeadValuesV::One(
            match member(actions[i], "value"@) {
                Some(JsonV::Text(v)) => v,
                _ => "0"@,
            },
        ),
{
    lemma_action_found(actions, counted_kinds()[k], i);
    lemma_from(actions, k, 0);
}

proof fn lemma_from(actions: Seq<JsonV>, k: int, at: int)
    requires
        0 <= at <= k < 5,
        lookup(actions_by_kind(actions), counted_kinds()[k]) is Some,
        forall|e: int, j: int|
            0 <= e < k && 0 <= j < actions.len() ==> !is_of_kind(
                #[trigger] actions[j],
                #[trigger] counted_kinds()[e],
            ),
    ensures
        lead_values_from(actions_by_kind(actions), at) == LeadValuesV::One(
            lookup(actions_by_kind(actions), counted_kinds()[k])->0,
        ),
    decreases k - at,
{
    assert(lead_types() =~= counted_kinds());
    if at < k {
        let kind = counted_kinds()[at];
        assert forall|j: int| 0 <= j < actions.len() implies !is_of_kind(
            #[trigger] actions[j],
            kind,
        ) by {
            assert(!is_of_kind(actions[j], counted_kinds()[at]));
        }
        lemma_action_missing(actions, kind);
        lemma_from(actions, k, at + 1);
    }
}

/// Where a row has no action of the kinds that count, the values of all kinds that hold `lead` are
/// summed up: none where no action is of such a kind.
pub proof fn law_other_kinds_are_summed(actions: Seq<JsonV>)
    requires
        forall|e: int, j: int|
            0 <= e < 5 && 0 <= j < actions.len() ==> !is_of_kind(
                #[trigger] actions[j],
                #[trigger] counted_kinds()[e],
            ),
    ensures
        lead_values_of(actions) is Sum,
{
    lemma_from_sum(actions, 0);
}

proof fn lemma_from_sum(actions: Seq<JsonV>, at: int)
    requires
        0 <= at <= 5,
        forall|e: int, j: int|
            0 <= e < 5 && 0 <= j < actions.len() ==> !is_of_kind(
                #[trigger] actions[j],
                #[trigger] counted_kinds()[e],
            ),
    ensures
        lead_values_from(actions_by_kind(actions), at) is Sum,
    decreases 5 - at,
{
    assert(lead_types() =~= counted_kinds());
    if at < 5 {
        let kind = counted_kinds()[at];
        assert forall|j: int| 0 <= j < actions.len() implies !is_of_kind(
            #[trigger] actions[j],
            kind,
        ) by {
            assert(!is_of_kind(actions[j], counted_kinds()[at]));
        }
        lemma_action_missing(actions, kind);
        lemma_from_sum(actions, at + 1);
    }
}

// The summary of a product

/// The totals of a product are the sum of the leads of its rows, the number of its tickets, and the
/// number of those that are qualified.
pub proof fn law_totals_are_counted(
    t: ProductTotals,
    s: SnapshotV,
    product: Seq<char>,
    w: WindowV,
    m: Seq<u64>,
)
    requires
        are_totals(t, s, product, w, m),
    ensures
        ({
            let picked = rows_in(s.ads_daily, product, w);
            let hits = hits_of(tickets_in(s.crm), s.ads_daily, picked, w);
            &&& places(t.rows@) == picked
            &&& t.m7d == picked.fold_left(0int, |n: int, i: int| n + m[i])
            &&& t.l7d == hits.len()
            &&& t.q7d == hits.filter(|h: Hit| h.qualified).len()
        }),
{
    let picked = rows_in(s.ads_daily, product, w);
    let hits = hits_of(tickets_in(s.crm), s.ads_daily, picked, w);
    crate::funnel::laws::law_leads_are_a_sum(m, picked);
    lemma_qualified(hits);
}

proof fn lemma_qualified(hits: Seq<Hit>)
    ensures
        qualified_in(hits) == hits.filter(|h: Hit| h.qualified).len(),
    decreases hits.len(),
{
    reveal(Seq::filter);
    if hits.len() > 0 {
        lemma_qualified(hits.drop_last());
    }
}

/// A debt is open unless its status is `cleared`; the open ones are told by their names, in their
/// order.
pub proof fn law_open_debts_are_not_cleared(
    raw: Seq<char>,
    j: JsonV,
    pairs: Seq<(Seq<char>, JsonV)>,
)
    requires
        json_parsed(raw) == Ok::<JsonV, Seq<char>>(j),
        member(j, "items"@) == Some(JsonV::Object(pairs)),
    ensures
        open_debt_in(raw) == pairs.filter(
            |p: (Seq<char>, JsonV)| member(p.1, "status"@) != Some(JsonV::Text("cleared"@)),
        ).map_values(|p: (Seq<char>, JsonV)| p.0),
{
    lemma_open_items(pairs);
}

proof fn lemma_open_items(pairs: Seq<(Seq<char>, JsonV)>)
    ensures
        crate::brief::open_items(pairs) == pairs.filter(
            |p: (Seq<char>, JsonV)| member(p.1, "status"@) != Some(JsonV::Text("cleared"@)),
        ).map_values(|p: (Seq<char>, JsonV)| p.0),
    decreases pairs.len(),
{
    reveal(Seq::filter);
    let open = |p: (Seq<char>, JsonV)| member(p.1, "status"@) != Some(JsonV::Text("cleared"@));
    let name = |p: (Seq<char>, JsonV)| p.0;
    if pairs.len() > 0 {
        lemma_open_items(pairs.drop_last());
        let before = pairs.drop_last().filter(open);
        if open(pairs.last()) {
            assert(before.push(pairs.last()).map_values(name) =~= before.map_values(name).push(
                pairs.last().0,
            ));
        }
    } else {
        assert(pairs.filter(open).map_values(name) =~= Seq::empty());
    }
}

/// The kinds of leads are those whose name holds the word.
pub proof fn law_kinds_of_leads_hold_the_word(pairs: Seq<(Seq<char>, Seq<char>)>)
    ensures
        lead_like(pairs) == pairs.filter(
            |p: (Seq<char>, Seq<char>)| has_text(p.0, "lead"@),
        ).map_values(|p: (Seq<char>, Seq<char>)| p.1),
    decreases pairs.len(),
{
    reveal(Seq::filter);
    let holds = |p: (Seq<char>, Seq<char>)| has_text(p.0, "lead"@);
    let value = |p: (Seq<char>, Seq<char>)| p.1;
    if pairs.len() > 0 {
        law_kinds_of_leads_hold_the_word(pairs.drop_last());
        let before = pairs.drop_last().filter(holds);
        if holds(pairs.last()) {
            assert(before.push(pairs.last()).map_values(value) =~= before.map_values(value).push(
                pairs.last().1,
            ));
        }
    } else {
        assert(pairs.filter(holds).map_values(value) =~= Seq::empty());
    }
}

} // verus!
