//! What holds of every funnel: nothing is counted twice, and nothing is lost.

use crate::crm::tickets_in;
use crate::funnel::{
    funnel_of, key_of, keys_in, label_of, leads_in, leads_together, learning_in, name_in, rows_with,
    tally_of, By, FunnelGroupV,
};
use crate::json::laws::{below, law_two_names};
use crate::json::{member, JsonV};
use crate::snapshot::{AdsDailyRowV, SnapshotV};
use crate::window::{hits_of, rows_in, Hit, WindowV};
use vstd::prelude::*;

verus! {

// Leads

/// Leads add up: no rows have none, one row has its own, and two lists of rows together have those
/// of the one and those of the other.
pub proof fn law_leads_add_up(m: Seq<u64>, a: Seq<int>, b: Seq<int>, i: int)
    ensures
        leads_in(m, Seq::empty()) == 0,
        leads_in(m, seq![i]) == m[i],
        leads_in(m, a + b) == leads_in(m, a) + leads_in(m, b),
    decreases b.len(),
{
    let one_row = seq![i];
    assert(one_row.drop_last() =~= Seq::empty());
    assert(leads_in(m, one_row.drop_last()) == 0);
    if b.len() == 0 {
        assert(a + b =~= a);
    } else {
        assert((a + b).drop_last() =~= a + b.drop_last());
        law_leads_add_up(m, a, b.drop_last(), i);
    }
}

/// The leads of rows are the sum of the numbers of the rows, one by one.
pub proof fn law_leads_are_a_sum(m: Seq<u64>, group: Seq<int>)
    ensures
        leads_in(m, group) == group.fold_left(0int, |n: int, i: int| n + m[i]),
    decreases group.len(),
{
    if group.len() > 0 {
        law_leads_are_a_sum(m, group.drop_last());
    }
}

spec fn leads_by_key(
    keys: Seq<Seq<char>>,
    rows: Seq<AdsDailyRowV>,
    picked: Seq<int>,
    by: By,
    m: Seq<u64>,
) -> nat
    decreases keys.len(),
{
    if keys.len() == 0 {
        0
    } else {
        leads_by_key(keys.drop_last(), rows, picked, by, m) + leads_in(
            m,
            rows_with(rows, picked, by, keys.last()),
        )
    }
}

proof fn lemma_add_row(
    keys: Seq<Seq<char>>,
    rows: Seq<AdsDailyRowV>,
    picked: Seq<int>,
    by: By,
    m: Seq<u64>,
)
    requires
        keys.no_duplicates(),
        picked.len() > 0,
    ensures
        leads_by_key(keys, rows, picked, by, m) == leads_by_key(
            keys,
            rows,
            picked.drop_last(),
            by,
            m,
        ) + (if keys.contains(key_of(by, rows[picked.last()])) {
            m[picked.last()] as nat
        } else {
            0
        }),
    decreases keys.len(),
{
    let key = key_of(by, rows[picked.last()]);
    if keys.len() > 0 {
        let rest = keys.drop_last();
        assert forall|i: int, j: int|
            0 <= i < rest.len() && 0 <= j < rest.len() && i != j implies rest[i] != rest[j] by {
            assert(keys[i] != keys[j]);
        }
        lemma_add_row(rest, rows, picked, by, m);
        let before = rows_with(rows, picked.drop_last(), by, keys.last());
        if keys.last() == key {
            if rest.contains(key) {
                let k = choose|k: int| 0 <= k < rest.len() && rest[k] == key;
                assert(keys[k] != keys[keys.len() - 1]);
            }
            assert(keys[keys.len() - 1] == key);
            assert(before.push(picked.last()).drop_last() =~= before);
        } else {
            if rest.contains(key) {
                let k = choose|k: int| 0 <= k < rest.len() && rest[k] == key;
                assert(keys[k] == key);
            }
            if keys.contains(key) {
                let k = choose|k: int| 0 <= k < keys.len() && keys[k] == key;
                assert(rest[k] == key);
            }
        }
    }
}

proof fn lemma_no_rows(keys: Seq<Seq<char>>, rows: Seq<AdsDailyRowV>, by: By, m: Seq<u64>)
    ensures
        leads_by_key(keys, rows, Seq::empty(), by, m) == 0,
    decreases keys.len(),
{
    if keys.len() > 0 {
        lemma_no_rows(keys.drop_last(), rows, by, m);
    }
}

proof fn lemma_rows_share_leads(
    keys: Seq<Seq<char>>,
    rows: Seq<AdsDailyRowV>,
    picked: Seq<int>,
    by: By,
    m: Seq<u64>,
)
    requires
        keys.no_duplicates(),
        forall|k: int|
            0 <= k < picked.len() ==> keys.contains(key_of(by, rows[#[trigger] picked[k]])),
    ensures
        leads_by_key(keys, rows, picked, by, m) == leads_in(m, picked),
    decreases picked.len(),
{
    if picked.len() > 0 {
        let rest = picked.drop_last();
        assert forall|k: int| 0 <= k < rest.len() implies keys.contains(
            key_of(by, rows[#[trigger] rest[k]]),
        ) by {
            assert(picked[k] == rest[k]);
        }
        lemma_rows_share_leads(keys, rows, rest, by, m);
        lemma_add_row(keys, rows, picked, by, m);
        assert(picked[picked.len() - 1] == picked.last());
    } else {
        assert(picked =~= Seq::empty());
        lemma_no_rows(keys, rows, by, m);
    }
}

proof fn lemma_groups_by_key(
    groups: Seq<FunnelGroupV>,
    keys: Seq<Seq<char>>,
    rows: Seq<AdsDailyRowV>,
    picked: Seq<int>,
    by: By,
    m: Seq<u64>,
)
    requires
        groups.len() == keys.len(),
        forall|k: int|
            0 <= k < groups.len() ==> (#[trigger] groups[k]).m == leads_in(
                m,
                rows_with(rows, picked, by, keys[k]),
            ),
    ensures
        groups.fold_left(0int, |n: int, g: FunnelGroupV| n + g.m) == leads_by_key(
            keys,
            rows,
            picked,
            by,
            m,
        ),
    decreases groups.len(),
{
    if groups.len() > 0 {
        let g = groups.drop_last();
        let k = keys.drop_last();
        assert forall|i: int| 0 <= i < g.len() implies (#[trigger] g[i]).m == leads_in(
            m,
            rows_with(rows, picked, by, k[i]),
        ) by {
            assert(g[i] == groups[i]);
        }
        lemma_groups_by_key(g, k, rows, picked, by, m);
        assert(groups[groups.len() - 1] == groups.last());
    }
}

/// The leads of all groups of a funnel together are those of the rows of the product and of the
/// days: no lead is lost, and none counts in two groups.
pub proof fn law_groups_hold_every_lead(
    s: SnapshotV,
    product: Seq<char>,
    w: WindowV,
    by: By,
    m: Seq<u64>,
)
    ensures
        funnel_of(s, product, w, by, m).fold_left(0int, |n: int, g: FunnelGroupV| n + g.m)
            == rows_in(s.ads_daily, product, w).fold_left(0int, |n: int, i: int| n + m[i]),
{
    let picked = rows_in(s.ads_daily, product, w);
    let keys = keys_in(s.ads_daily, picked, by);
    let groups = funnel_of(s, product, w, by, m);
    crate::funnel::lemma_keys_in(s.ads_daily, picked, by);
    lemma_rows_share_leads(keys, s.ads_daily, picked, by, m);
    lemma_groups_by_key(groups, keys, s.ads_daily, picked, by, m);
    law_leads_are_a_sum(m, picked);
}

// Groups

/// A row is put to its group by the id of its campaign, its adset or its ad, and names it likewise.
pub proof fn law_rows_go_by_their_id(r: AdsDailyRowV)
    ensures
        key_of(By::Campaign, r) == r.campaign_id && label_of(By::Campaign, r) == r.campaign_name,
        key_of(By::Adset, r) == r.adset_id && label_of(By::Adset, r) == r.adset_name,
        key_of(By::Ad, r) == r.ad_id && label_of(By::Ad, r) == r.ad_name,
{
}

proof fn lemma_rows_with_are_filtered(
    rows: Seq<AdsDailyRowV>,
    picked: Seq<int>,
    by: By,
    key: Seq<char>,
)
    ensures
        rows_with(rows, picked, by, key) == picked.filter(|i: int| key_of(by, rows[i]) == key),
    decreases picked.len(),
{
    reveal(Seq::filter);
    if picked.len() > 0 {
        lemma_rows_with_are_filtered(rows, picked.drop_last(), by, key);
    }
}

proof fn lemma_tally_is_counted(hits: Seq<Hit>, rows: Seq<AdsDailyRowV>, by: By, key: Seq<char>)
    ensures
        ({
            let t = tally_of(hits, rows, by, key);
            let ours = hits.filter(|h: Hit| key_of(by, rows[h.row as int]) == key);
            &&& t.l == ours.len()
            &&& t.q == ours.filter(|h: Hit| h.qualified).len()
            &&& t.v == ours.filter(|h: Hit| h.visit).len()
            &&& t.b == ours.filter(|h: Hit| h.booking).len()
            &&& t.recent == ours.filter(|h: Hit| h.recent).len()
        }),
    decreases hits.len(),
{
    reveal(Seq::filter);
    if hits.len() > 0 {
        lemma_tally_is_counted(hits.drop_last(), rows, by, key);
        let p = |h: Hit| key_of(by, rows[h.row as int]) == key;
        let before = hits.drop_last().filter(p);
        assert(before.push(hits.last()).drop_last() =~= before);
    }
}

proof fn lemma_name_is_first(rows: Seq<AdsDailyRowV>, group: Seq<int>, by: By, key: Seq<char>)
    requires
        group.len() > 0,
        key.len() > 0,
    ensures
        name_in(rows, group, by, key) == if label_of(by, rows[group[0]]).len() > 0 {
            label_of(by, rows[group[0]])
        } else {
            key
        },
    decreases group.len(),
{
    if group.len() == 1 {
        assert(group.drop_last() =~= Seq::empty());
        assert(name_in(rows, group.drop_last(), by, key).len() == 0);
    } else {
        lemma_name_is_first(rows, group.drop_last(), by, key);
    }
}

/// A group holds just the picked rows of its id, and counts just the tickets of those: all of them,
/// and those that are qualified, visited and booked. It is immature where one of its tickets may
/// still move, and bears the name of its first row, or its id where that row has no name.
pub proof fn law_group_counts_its_own(
    s: SnapshotV,
    product: Seq<char>,
    w: WindowV,
    by: By,
    m: Seq<u64>,
    k: int,
)
    requires
        0 <= k < funnel_of(s, product, w, by, m).len(),
    ensures
        ({
            let g = funnel_of(s, product, w, by, m)[k];
            let rows = s.ads_daily;
            let hits = hits_of(tickets_in(s.crm), rows, rows_in(rows, product, w), w);
            let ours = hits.filter(|h: Hit| key_of(by, rows[h.row as int]) == g.id);
            &&& g.rows == rows_in(rows, product, w).filter(
                |i: int| key_of(by, rows[i]) == g.id,
            )
            &&& g.rows.len() > 0
            &&& g.m == g.rows.fold_left(0int, |n: int, i: int| n + m[i])
            &&& g.l == ours.len()
            &&& g.q == ours.filter(|h: Hit| h.qualified).len()
            &&& g.v == ours.filter(|h: Hit| h.visit).len()
            &&& g.b == ours.filter(|h: Hit| h.booking).len()
            &&& g.immature <==> exists|i: int| 0 <= i < ours.len() && (#[trigger] ours[i]).recent
            &&& g.id.len() > 0 ==> g.name == if label_of(by, rows[g.rows[0]]).len() > 0 {
                label_of(by, rows[g.rows[0]])
            } else {
                g.id
            }
        }),
{
    let rows = s.ads_daily;
    let picked = rows_in(rows, product, w);
    let hits = hits_of(tickets_in(s.crm), rows, picked, w);
    let g = funnel_of(s, product, w, by, m)[k];
    let ours = hits.filter(|h: Hit| key_of(by, rows[h.row as int]) == g.id);
    let recent = |h: Hit| h.recent;
    lemma_rows_with_are_filtered(rows, picked, by, g.id);
    lemma_tally_is_counted(hits, rows, by, g.id);
    law_leads_are_a_sum(m, g.rows);
    lemma_key_has_row(rows, picked, by, k);
    broadcast use vstd::seq_lib::group_filter_ensures;

    if exists|i: int| 0 <= i < ours.len() && (#[trigger] ours[i]).recent {
        let i = choose|i: int| 0 <= i < ours.len() && (#[trigger] ours[i]).recent;
        assert(recent(ours[i]));
        assert(ours.filter(recent).contains(ours[i]));
    }
    if g.immature {
        let h = ours.filter(recent)[0];
        assert(ours.filter(recent).contains(h));
        assert(recent(h));
        ours.lemma_filter_contains_rev(recent, h);
        assert(ours.contains(h));
    }
    if g.id.len() > 0 {
        lemma_name_is_first(rows, g.rows, by, g.id);
    }
}

proof fn lemma_key_has_row(rows: Seq<AdsDailyRowV>, picked: Seq<int>, by: By, k: int)
    requires
        0 <= k < keys_in(rows, picked, by).len(),
    ensures
        rows_with(rows, picked, by, keys_in(rows, picked, by)[k]).len() > 0,
    decreases picked.len(),
{
    if picked.len() > 0 {
        let before = keys_in(rows, picked.drop_last(), by);
        if k < before.len() {
            lemma_key_has_row(rows, picked.drop_last(), by, k);
        }
    }
}

/// Every id of a picked row has just one group.
pub proof fn law_every_id_has_one_group(
    s: SnapshotV,
    product: Seq<char>,
    w: WindowV,
    by: By,
    m: Seq<u64>,
)
    ensures
        ({
            let groups = funnel_of(s, product, w, by, m);
            let picked = rows_in(s.ads_daily, product, w);
            &&& forall|i: int, j: int|
                0 <= i < j < groups.len() ==> (#[trigger] groups[i]).id != (#[trigger] groups[j]).id
            &&& forall|i: int|
                0 <= i < picked.len() ==> exists|k: int|
                    0 <= k < groups.len() && (#[trigger] groups[k]).id == key_of(
                        by,
                        s.ads_daily[#[trigger] picked[i]],
                    )
        }),
{
    let groups = funnel_of(s, product, w, by, m);
    let picked = rows_in(s.ads_daily, product, w);
    let keys = keys_in(s.ads_daily, picked, by);
    crate::funnel::lemma_keys_in(s.ads_daily, picked, by);
    assert(forall|k: int| 0 <= k < groups.len() ==> (#[trigger] groups[k]).id == keys[k]);
    assert forall|i: int| 0 <= i < picked.len() implies exists|k: int|
        0 <= k < groups.len() && (#[trigger] groups[k]).id == key_of(
            by,
            s.ads_daily[#[trigger] picked[i]],
        ) by {
        let key = key_of(by, s.ads_daily[picked[i]]);
        assert(keys.contains(key));
        let k = choose|k: int| 0 <= k < keys.len() && keys[k] == key;
        assert(groups[k].id == key);
    }
}

/// All leads together are the sum over the rows.
pub proof fn law_leads_together_are_a_sum(m: Seq<u64>)
    ensures
        leads_together(m) == m.fold_left(0int, |n: int, x: u64| n + x),
    decreases m.len(),
{
    if m.len() > 0 {
        law_leads_together_are_a_sum(m.drop_last());
    }
}

/// Only an ad set has a stage of learning: the status of its learning.
pub proof fn law_adsets_have_their_learning(
    adsets: JsonV,
    id: Seq<char>,
    a: JsonV,
    stage: Seq<char>,
)
    ensures
        learning_in(adsets, id, By::Campaign) == "-"@,
        learning_in(adsets, id, By::Ad) == "-"@,
        member(adsets, id) is None ==> learning_in(adsets, id, By::Adset) == "-"@,
        member(adsets, id) == Some(a) && below(member(a, "learning_stage_info"@), "status"@) == Some(
            JsonV::Text(stage),
        ) ==> learning_in(adsets, id, By::Adset) == stage,
        member(adsets, id) == Some(a) && member(a, "learning_stage_info"@) is None ==> learning_in(
            adsets,
            id,
            By::Adset,
        ) == "-"@,
{
    reveal_strlit("learning_stage_info");
    reveal_strlit("status");
    reveal_strlit("/learning_stage_info/status");
    assert("/learning_stage_info/status"@ =~= seq!['/'] + "learning_stage_info"@ + seq!['/']
        + "status"@);
    law_two_names(a, "/learning_stage_info/status"@, "learning_stage_info"@, "status"@);
}

} // verus!
