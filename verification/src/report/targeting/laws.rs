//! What holds of every verdict on a targeting.

use crate::report::group::base_targeting_of;
use crate::report::markup::{lemma_one_hole, lemma_three_holes, lemma_two_holes};
use crate::report::targeting::{
    adsets_of, aim_came, aim_recent, aim_rows, overlap, product_came, rows_from, sum_at,
    targeting_of, targetings_in, targetings_of, verdicts_of, AimV, TargetingReportV, VerdictFacts,
};
use crate::schema::{SevenDay, VerdictV};
use crate::sets::{is_ascending, law_sorted_set, sorted_set};
use crate::snapshot::{count_in, AdsDailyRowV};
use crate::strs::{dec, text_lt};
use crate::window::{Hit, WindowV};
use vstd::prelude::*;

verus! {

/// Whether one of the verdicts bears a code.
pub open spec fn says(v: Seq<VerdictV>, code: Seq<char>) -> bool {
    exists|i: int| 0 <= i < v.len() && (#[trigger] v[i]).code == code
}

proof fn lemma_codes_differ()
    ensures
        "kill"@ != "zero_crm"@ && "kill"@ != "learning"@ && "kill"@ != "quality_leak"@ && "kill"@
            != "scale"@ && "kill"@ != "wait"@,
        "zero_crm"@ != "learning"@ && "zero_crm"@ != "quality_leak"@ && "zero_crm"@ != "scale"@
            && "zero_crm"@ != "wait"@,
        "learning"@ != "quality_leak"@ && "learning"@ != "scale"@ && "learning"@ != "wait"@,
        "quality_leak"@ != "scale"@ && "quality_leak"@ != "wait"@,
        "scale"@ != "wait"@,
{
    reveal_strlit("kill");
    reveal_strlit("zero_crm");
    reveal_strlit("learning");
    reveal_strlit("quality_leak");
    reveal_strlit("scale");
    reveal_strlit("wait");
    assert("kill"@.len() == 4 && "wait"@.len() == 4);
    assert("kill"@[0] == 'k' && "wait"@[0] == 'w');
    assert("zero_crm"@.len() == 8 && "learning"@.len() == 8);
    assert("zero_crm"@[0] == 'z' && "learning"@[0] == 'l');
    assert("quality_leak"@.len() == 12 && "scale"@.len() == 5);
}

/// A targeting on which nothing was spent gets no verdict; every other one gets one or two, and
/// never the same one twice.
pub proof fn law_spending_is_judged(
    s7: SevenDay,
    recent: u64,
    learning: Seq<char>,
    product_leads: u64,
    product_qualified: u64,
    f: VerdictFacts,
)
    ensures
        ({
            let v = verdicts_of(s7, recent, learning, product_leads, product_qualified, f);
            &&& v.len() > 0 <==> f.spent
            &&& v.len() <= 2
            &&& v.len() == 2 ==> v[0].code != v[1].code
        }),
{
    lemma_codes_differ();
}

/// A targeting on which something was spent is to be killed just where none, one or two of its
/// tickets are qualified, more was spent than the table allows for that many, and no ticket of it
/// may still move. That verdict then comes first, under its label, and names the money spent, how
/// many targets it is, and the number of qualified tickets.
pub proof fn law_kill_comes_first(
    s7: SevenDay,
    recent: u64,
    learning: Seq<char>,
    product_leads: u64,
    product_qualified: u64,
    f: VerdictFacts,
)
    requires
        f.spent,
    ensures
        ({
            let v = verdicts_of(s7, recent, learning, product_leads, product_qualified, f);
            let few = s7.qualified == 0 || s7.qualified == 1 || s7.qualified == 2;
            &&& few && f.over_table && recent == 0 ==> v[0].code == "kill"@ && v[0].label
                == "Kill"@ && v[0].detail == "Rs "@ + f.spend@ + " = "@ + f.multiple@
                + "x target with "@ + dec(s7.qualified as nat) + " qualified in 7d"@
            &&& says(v, "kill"@) ==> few && f.over_table && recent == 0
        }),
{
    lemma_codes_differ();
    reveal_strlit("Rs ");
    reveal_strlit(" = ");
    reveal_strlit("x target with ");
    reveal_strlit(" qualified in 7d");
    reveal_strlit("Rs {} = {}x target with {} qualified in 7d");
    assert("Rs {} = {}x target with {} qualified in 7d"@ =~= "Rs "@ + seq!['{', '}'] + (" = "@
        + seq!['{', '}'] + ("x target with "@ + seq!['{', '}'] + " qualified in 7d"@)));
    lemma_three_holes(
        "Rs {} = {}x target with {} qualified in 7d"@,
        "Rs "@,
        " = "@,
        "x target with "@,
        " qualified in 7d"@,
        f.spend@,
        f.multiple@,
        dec(s7.qualified as nat),
    );
}

/// A targeting on which something was spent is said to have no tickets just where so much was spent
/// that tickets are to be expected, there are none, and none may still come in. Only a kill comes
/// before that verdict.
pub proof fn law_missing_tickets_are_told(
    s7: SevenDay,
    recent: u64,
    learning: Seq<char>,
    product_leads: u64,
    product_qualified: u64,
    f: VerdictFacts,
)
    requires
        f.spent,
    ensures
        ({
            let v = verdicts_of(s7, recent, learning, product_leads, product_qualified, f);
            let zero = f.alarming && s7.l_leads == 0 && recent == 0;
            let at: int = if v[0].code == "kill"@ {
                1
            } else {
                0
            };
            &&& zero ==> at < v.len() && v[at].code == "zero_crm"@ && v[at].label == "0 CRM"@
                && v[at].detail == "no CRM leads on Rs "@ + f.spend@ + " in 7 settled days"@
            &&& says(v, "zero_crm"@) ==> zero
        }),
{
    lemma_codes_differ();
    reveal_strlit("no CRM leads on Rs {} in 7 settled days");
    reveal_strlit("no CRM leads on Rs ");
    reveal_strlit(" in 7 settled days");
    assert("no CRM leads on Rs {} in 7 settled days"@ =~= "no CRM leads on Rs "@ + seq!['{', '}']
        + " in 7 settled days"@);
    lemma_one_hole(
        "no CRM leads on Rs {} in 7 settled days"@,
        "no CRM leads on Rs "@,
        " in 7 settled days"@,
        f.spend@,
    );
}

/// A targeting on which something was spent, that is neither to be killed nor without tickets
/// though some are to be expected, is said to be learning just where its learning failed, or goes
/// on with fewer than seven leads. That verdict then comes first, and names the leads.
pub proof fn law_learning_is_told(
    s7: SevenDay,
    recent: u64,
    learning: Seq<char>,
    product_leads: u64,
    product_qualified: u64,
    f: VerdictFacts,
)
    requires
        f.spent,
    ensures
        ({
            let v = verdicts_of(s7, recent, learning, product_leads, product_qualified, f);
            let learns = learning == "FAIL"@ || (learning == "LEARNING"@ && s7.m_leads <= 6);
            &&& learns && !says(v, "kill"@) && !says(v, "zero_crm"@) ==> v[0].code == "learning"@
            &&& learns && says(v, "kill"@) != says(v, "zero_crm"@) ==> v.len() == 2 && v[1].code
                == "learning"@
            &&& says(v, "learning"@) ==> learns
            &&& forall|i: int|
                0 <= i < v.len() && (#[trigger] v[i]).code == "learning"@ ==> v[i].label
                    == "Learning"@ && v[i].detail == dec(s7.m_leads as nat)
                    + " leads/7d - CPL not comparable yet"@
        }),
{
    lemma_codes_differ();
    let v = verdicts_of(s7, recent, learning, product_leads, product_qualified, f);
    if f.alarming && s7.l_leads == 0 && recent == 0 {
        law_missing_tickets_are_told(s7, recent, learning, product_leads, product_qualified, f);
        assert(says(v, "zero_crm"@));
    }
    if s7.qualified <= 2 && f.over_table && recent == 0 {
        assert(v[0].code == "kill"@);
        assert(says(v, "kill"@));
    }
    reveal_strlit("{} leads/7d - CPL not comparable yet");
    reveal_strlit(" leads/7d - CPL not comparable yet");
    let none = Seq::<char>::empty();
    let t = dec(s7.m_leads as nat);
    assert("{} leads/7d - CPL not comparable yet"@ =~= none + seq!['{', '}']
        + " leads/7d - CPL not comparable yet"@);
    lemma_one_hole(
        "{} leads/7d - CPL not comparable yet"@,
        none,
        " leads/7d - CPL not comparable yet"@,
        t,
    );
    assert(none + t =~= t);
}

/// A targeting on which something was spent is said to leak just where it has eight tickets or
/// more, its product has tickets and qualified ones, and less than half as many of its own are
/// qualified as of the product's, unless two other objections come first.
pub proof fn law_leak_is_told(
    s7: SevenDay,
    recent: u64,
    learning: Seq<char>,
    product_leads: u64,
    product_qualified: u64,
    f: VerdictFacts,
)
    requires
        f.spent,
    ensures
        ({
            let v = verdicts_of(s7, recent, learning, product_leads, product_qualified, f);
            let leaks = 8 <= s7.l_leads && 1 <= product_leads && 1 <= product_qualified
                && f.leaking;
            &&& leaks ==> says(v, "quality_leak"@) || (v.len() == 2 && v[0].code != "scale"@
                && v[0].code != "wait"@)
            &&& says(v, "quality_leak"@) ==> leaks && v.last().code == "quality_leak"@
                && v.last().label == "Weak L>Q"@ && v.last().detail == f.own_rate@
                + "% L>Q vs product "@ + f.product_rate@ + "%"@
        }),
{
    lemma_codes_differ();
    let v = verdicts_of(s7, recent, learning, product_leads, product_qualified, f);
    let none = Seq::<char>::empty();
    reveal_strlit("{}% L>Q vs product {}%");
    reveal_strlit("% L>Q vs product ");
    reveal_strlit("%");
    assert("{}% L>Q vs product {}%"@ =~= none + seq!['{', '}'] + ("% L>Q vs product "@ + seq![
        '{',
        '}',
    ] + "%"@));
    lemma_two_holes(
        "{}% L>Q vs product {}%"@,
        none,
        "% L>Q vs product "@,
        "%"@,
        f.own_rate@,
        f.product_rate@,
    );
    assert(none + f.own_rate@ =~= f.own_rate@);
    let leaks = 8 <= s7.l_leads && 1 <= product_leads && 1 <= product_qualified && f.leaking;
    if leaks && v.len() < 2 {
        assert(v[v.len() - 1].code == "quality_leak"@);
    }
}

/// A targeting on which something was spent is to be scaled just where nothing speaks against it,
/// two or more of its tickets are qualified and come cheap enough, there is room to spend more, and
/// its learning did not fail. Where nothing speaks against it and it is not to be scaled, it is to
/// wait. Neither comes with another verdict.
pub proof fn law_scale_or_wait(
    s7: SevenDay,
    recent: u64,
    learning: Seq<char>,
    product_leads: u64,
    product_qualified: u64,
    f: VerdictFacts,
)
    requires
        f.spent,
    ensures
        ({
            let v = verdicts_of(s7, recent, learning, product_leads, product_qualified, f);
            let against = says(v, "kill"@) || says(v, "zero_crm"@) || says(v, "learning"@) || says(
                v,
                "quality_leak"@,
            );
            let good = s7.qualified > 1 && f.proven && f.headroom && learning != "FAIL"@;
            &&& says(v, "scale"@) <==> !against && good
            &&& says(v, "wait"@) <==> !against && !good
            &&& !against ==> v.len() == 1
            &&& says(v, "scale"@) ==> v[0].label == "Scale"@ && v[0].detail == "Rs "@ + f.cost@
                + "/qualified on "@ + f.share@ + "% of spend"@
            &&& says(v, "wait"@) ==> v[0].label == "Wait"@ && v[0].detail
                == "no actionable signal yet"@
        }),
{
    lemma_codes_differ();
    let v = verdicts_of(s7, recent, learning, product_leads, product_qualified, f);
    assert(v[0].code == "kill"@ || v[0].code == "zero_crm"@ || v[0].code == "learning"@ || v[0].code
        == "quality_leak"@ || v[0].code == "scale"@ || v[0].code == "wait"@);
    reveal_strlit("Rs {}/qualified on {}% of spend");
    reveal_strlit("Rs ");
    reveal_strlit("/qualified on ");
    reveal_strlit("% of spend");
    assert("Rs {}/qualified on {}% of spend"@ =~= "Rs "@ + seq!['{', '}'] + ("/qualified on "@
        + seq!['{', '}'] + "% of spend"@));
    lemma_two_holes(
        "Rs {}/qualified on {}% of spend"@,
        "Rs "@,
        "/qualified on "@,
        "% of spend"@,
        f.cost@,
        f.share@,
    );
}

// What a targeting brought

/// Whether a row is of a product, and its ad set of a targeting.
pub open spec fn aims(r: AdsDailyRowV, product: Seq<char>, t: Seq<char>) -> bool {
    r._product == product && base_targeting_of(r.adset_name) == t
}

proof fn lemma_aim_rows(
    rows: Seq<AdsDailyRowV>,
    picked: Seq<int>,
    product: Seq<char>,
    t: Seq<char>,
)
    ensures
        aim_rows(rows, picked, product, t) == picked.filter(|i: int| aims(rows[i], product, t)),
    decreases picked.len(),
{
    reveal(Seq::filter);
    if picked.len() > 0 {
        lemma_aim_rows(rows, picked.drop_last(), product, t);
    }
}

proof fn lemma_rows_from(rows: Seq<AdsDailyRowV>, idx: Seq<int>, since: Seq<char>)
    ensures
        rows_from(rows, idx, since) == idx.filter(|i: int| !text_lt(rows[i].date_start, since)),
    decreases idx.len(),
{
    reveal(Seq::filter);
    if idx.len() > 0 {
        lemma_rows_from(rows, idx.drop_last(), since);
    }
}

proof fn lemma_sum_at(rows: Seq<AdsDailyRowV>, m: Seq<u64>, idx: Seq<int>)
    ensures
        sum_at(rows, m, idx).impressions == idx.fold_left(
            0int,
            |n: int, i: int| n + count_in(rows[i].impressions),
        ),
        sum_at(rows, m, idx).clicks == idx.fold_left(
            0int,
            |n: int, i: int| n + count_in(rows[i].inline_link_clicks),
        ),
        sum_at(rows, m, idx).m_leads == idx.fold_left(0int, |n: int, i: int| n + m[i]),
    decreases idx.len(),
{
    if idx.len() > 0 {
        lemma_sum_at(rows, m, idx.drop_last());
    }
}

proof fn lemma_aim_came(
    hits: Seq<Hit>,
    rows: Seq<AdsDailyRowV>,
    product: Seq<char>,
    t: Seq<char>,
)
    ensures
        ({
            let ours = hits.filter(|h: Hit| aims(rows[h.row as int], product, t));
            let c = aim_came(hits, rows, product, t);
            &&& c.l_leads == ours.len()
            &&& c.qualified == ours.filter(|h: Hit| h.qualified).len()
            &&& c.visit == ours.filter(|h: Hit| h.visit).len()
            &&& c.booking == ours.filter(|h: Hit| h.booking).len()
            &&& aim_recent(hits, rows, product, t) == ours.filter(|h: Hit| h.recent).len()
        }),
    decreases hits.len(),
{
    reveal(Seq::filter);
    if hits.len() > 0 {
        lemma_aim_came(hits.drop_last(), rows, product, t);
        let own = |h: Hit| aims(rows[h.row as int], product, t);
        let before = hits.drop_last().filter(own);
        assert(before.push(hits.last()).drop_last() =~= before);
    }
}

/// A targeting of a product tells what its rows of seven days delivered and which tickets they
/// brought, and the same of those of its rows and tickets that are of the days of the report. Its
/// reach is not told.
pub proof fn law_targeting_tells_its_own(a: AimV, product: Seq<char>, t: Seq<char>)
    ensures
        ({
            let r = targeting_of(a, product, t);
            let seven = a.picked.filter(|i: int| aims(a.rows[i], product, t));
            let ours = seven.filter(|i: int| !text_lt(a.rows[i].date_start, a.since));
            let hits = a.seven_hits.filter(|h: Hit| aims(a.rows[h.row as int], product, t));
            let window_hits = a.window_hits.filter(
                |h: Hit| aims(a.rows[h.row as int], product, t),
            );
            &&& r.targeting == t
            &&& r.seven_rows == seven
            &&& r.seven.impressions == seven.fold_left(
                0int,
                |n: int, i: int| n + count_in(a.rows[i].impressions),
            )
            &&& r.seven.clicks == seven.fold_left(
                0int,
                |n: int, i: int| n + count_in(a.rows[i].inline_link_clicks),
            )
            &&& r.seven.m_leads == seven.fold_left(0int, |n: int, i: int| n + a.m[i])
            &&& r.seven.reach == 0 && r.window.sum.reach == 0
            &&& r.seven_leads == hits.len()
            &&& r.seven_qualified == hits.filter(|h: Hit| h.qualified).len()
            &&& r.recent == hits.filter(|h: Hit| h.recent).len()
            &&& r.window.spend == seq![ours]
            &&& r.window.sum.impressions == ours.fold_left(
                0int,
                |n: int, i: int| n + count_in(a.rows[i].impressions),
            )
            &&& r.window.sum.clicks == ours.fold_left(
                0int,
                |n: int, i: int| n + count_in(a.rows[i].inline_link_clicks),
            )
            &&& r.window.sum.m_leads == ours.fold_left(0int, |n: int, i: int| n + a.m[i])
            &&& r.window_came.l_leads == window_hits.len()
            &&& r.window_came.qualified == window_hits.filter(|h: Hit| h.qualified).len()
            &&& r.window_came.visit == window_hits.filter(|h: Hit| h.visit).len()
            &&& r.window_came.booking == window_hits.filter(|h: Hit| h.booking).len()
        }),
{
    let seven = a.picked.filter(|i: int| aims(a.rows[i], product, t));
    lemma_aim_rows(a.rows, a.picked, product, t);
    lemma_rows_from(a.rows, seven, a.since);
    let ours = rows_from(a.rows, seven, a.since);
    lemma_sum_at(a.rows, a.m, seven);
    lemma_sum_at(a.rows, a.m, ours);
    lemma_aim_came(a.seven_hits, a.rows, product, t);
    lemma_aim_came(a.window_hits, a.rows, product, t);
}

/// The ad sets of rows are just those that the rows name, each once.
pub proof fn law_adsets_are_named_once(rows: Seq<AdsDailyRowV>, idx: Seq<int>)
    ensures
        adsets_of(rows, idx).no_duplicates(),
        forall|x: Seq<char>|
            #[trigger] adsets_of(rows, idx).contains(x) <==> x.len() > 0 && exists|k: int|
                0 <= k < idx.len() && rows[#[trigger] idx[k]].adset_id == x,
    decreases idx.len(),
{
    if idx.len() > 0 {
        let rest = idx.drop_last();
        law_adsets_are_named_once(rows, rest);
        let before = adsets_of(rows, rest);
        let now = adsets_of(rows, idx);
        assert(forall|k: int| 0 <= k < rest.len() ==> rest[k] == #[trigger] idx[k]);
        assert(forall|k: int| 0 <= k < rest.len() ==> #[trigger] rest[k] == idx[k]);
        assert(idx[idx.len() - 1] == idx.last());
        assert forall|x: Seq<char>|
            #[trigger] now.contains(x) <==> x.len() > 0 && exists|k: int|
                0 <= k < idx.len() && rows[#[trigger] idx[k]].adset_id == x by {
            if now.contains(x) {
                let n = choose|n: int| 0 <= n < now.len() && now[n] == x;
                if n < before.len() {
                    assert(before[n] == x);
                    assert(before.contains(x));
                    let k = choose|k: int|
                        0 <= k < rest.len() && rows[#[trigger] rest[k]].adset_id == x;
                    assert(rows[idx[k]].adset_id == x);
                } else {
                    assert(rows[idx[idx.len() - 1]].adset_id == x);
                }
            }
            if x.len() > 0 && exists|k: int|
                0 <= k < idx.len() && rows[#[trigger] idx[k]].adset_id == x {
                let k = choose|k: int| 0 <= k < idx.len() && rows[#[trigger] idx[k]].adset_id == x;
                if k < rest.len() {
                    assert(rows[rest[k]].adset_id == x);
                    assert(before.contains(x));
                }
                if before.contains(x) {
                    let n = choose|n: int| 0 <= n < before.len() && before[n] == x;
                    assert(now[n] == x);
                } else {
                    assert(now[before.len() as int] == x);
                }
            }
        }
    }
}

/// Every targeting of a row of a product is told once, in the order of their names.
pub proof fn law_every_targeting_is_told(a: AimV, product: Seq<char>)
    ensures
        ({
            let names = targetings_of(a, product).map_values(|r: TargetingReportV| r.targeting);
            &&& is_ascending(names)
            &&& forall|k: int|
                0 <= k < a.picked.len() && a.rows[#[trigger] a.picked[k]]._product == product
                    ==> names.contains(base_targeting_of(a.rows[a.picked[k]].adset_name))
        }),
{
    let v = targetings_in(a.rows, a.picked, product);
    let names = targetings_of(a, product).map_values(|r: TargetingReportV| r.targeting);
    law_sorted_set(v);
    assert(names =~= sorted_set(v));
    assert forall|k: int|
        0 <= k < a.picked.len() && a.rows[#[trigger] a.picked[k]]._product
            == product implies names.contains(
        base_targeting_of(a.rows[a.picked[k]].adset_name),
    ) by {
        lemma_targeting_in(a.rows, a.picked, product, k);
    }
}

proof fn lemma_targeting_in(
    rows: Seq<AdsDailyRowV>,
    picked: Seq<int>,
    product: Seq<char>,
    k: int,
)
    requires
        0 <= k < picked.len(),
        rows[picked[k]]._product == product,
    ensures
        targetings_in(rows, picked, product).contains(base_targeting_of(rows[picked[k]].adset_name)),
    decreases picked.len(),
{
    let rest = picked.drop_last();
    let before = targetings_in(rows, rest, product);
    let now = targetings_in(rows, picked, product);
    let t = base_targeting_of(rows[picked[k]].adset_name);
    if k < rest.len() {
        assert(rest[k] == picked[k]);
        lemma_targeting_in(rows, rest, product, k);
        let n = choose|n: int| 0 <= n < before.len() && before[n] == t;
        assert(now[n] == t);
    } else {
        assert(now[before.len() as int] == t);
    }
}

/// The tickets of a product are those that its rows brought, and of these the qualified ones count
/// apart.
pub proof fn law_product_counts_its_tickets(
    hits: Seq<Hit>,
    rows: Seq<AdsDailyRowV>,
    product: Seq<char>,
)
    ensures
        ({
            let ours = hits.filter(|h: Hit| rows[h.row as int]._product == product);
            let c = product_came(hits, rows, product);
            c.0 == ours.len() && c.1 == ours.filter(|h: Hit| h.qualified).len()
        }),
    decreases hits.len(),
{
    reveal(Seq::filter);
    if hits.len() > 0 {
        law_product_counts_its_tickets(hits.drop_last(), rows, product);
        let own = |h: Hit| rows[h.row as int]._product == product;
        let before = hits.drop_last().filter(own);
        assert(before.push(hits.last()).drop_last() =~= before);
    }
}

/// A moment lies in the part of seven days that is of the report just where it lies in both, as
/// long as the two end together.
pub proof fn law_part_of_seven_days_is_of_both(w: WindowV, seven: WindowV, at: int)
    requires
        w.to == seven.to,
    ensures
        overlap(w, seven).from <= at < overlap(w, seven).to <==> w.from <= at < w.to && seven.from <= at
            < seven.to,
        overlap(w, seven).since == w.since && overlap(w, seven).until == w.until,
        overlap(w, seven).lag == w.lag,
{
}

} // verus!
