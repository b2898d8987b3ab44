//! What the brief of a report says, and when.

use crate::report::exec::{
    base_text, brief_of, can_be_cheap, can_be_leak, can_be_value, change, cheap_lines, dates_before,
    earlier_names, leak_lines, line_of, missing, missing_lines, mover_lines, size, top_mover,
    value_lines, winner_of, BriefCard, BriefTotals, Contest, Mover,
};
use crate::report::markup::{
    filled, lemma_five_holes, lemma_four_holes, lemma_one_hole, lemma_three_holes,
};
use crate::sets::{law_sorted_set, sorted_set};
use crate::strs::{dec, text_lt};
use vstd::prelude::*;

verus! {

// Shape

/// A brief has one line at least and five at most, and its last line tells of the report as a
/// whole. On a quiet day, with fewer than three leads, only leads that never reached the CRM are
/// told of before it.
pub proof fn law_brief_ends_in_the_whole(
    t: BriefTotals,
    cards: Seq<BriefCard>,
    movers: Seq<Mover>,
)
    ensures
        ({
            let b = brief_of(t, cards, movers);
            &&& 1 <= b.len() <= 5
            &&& b.last().tone == "info"@
            &&& t.funnel.m_leads >= 3 ==> b.last().text == base_text(t)
            &&& t.funnel.m_leads <= 2 ==> b.last().text == "Quiet day: "@ + base_text(t)
            &&& t.funnel.m_leads <= 2 ==> b.drop_last() == missing_lines(cards)
        }),
{
    let b = brief_of(t, cards, movers);
    if t.funnel.m_leads <= 2 {
        assert(b.drop_last() =~= missing_lines(cards));
    }
}

/// On a day that is not quiet the lines on the product that moved most, on the best value and on
/// the worst leak are part of the brief, in that order, behind the one on missing leads; the one on
/// the cheapest leads follows where there are fewer than three of these.
pub proof fn law_lively_brief_holds_every_line(
    t: BriefTotals,
    cards: Seq<BriefCard>,
    movers: Seq<Mover>,
)
    requires
        t.funnel.m_leads >= 3,
    ensures
        ({
            let b = brief_of(t, cards, movers);
            let ahead = missing_lines(cards) + mover_lines(movers) + value_lines(t, cards)
                + leak_lines(cards);
            &&& ahead.len() >= 3 ==> b.drop_last() == ahead
            &&& ahead.len() <= 2 ==> b.drop_last() == ahead + cheap_lines(t, cards)
        }),
{
    let b = brief_of(t, cards, movers);
    let ahead = missing_lines(cards) + mover_lines(movers) + value_lines(t, cards) + leak_lines(
        cards,
    );
    if ahead.len() >= 3 {
        assert(b.drop_last() =~= ahead);
    } else {
        assert(b.drop_last() =~= ahead + cheap_lines(t, cards));
    }
}

// The report as a whole

/// The report as a whole is told by the money spent, the number of projects and of CRM leads, and
/// either that none is qualified, or how many are and what each of them costs.
pub proof fn law_whole_is_told_in_numbers(t: BriefTotals)
    ensures
        t.funnel.qualified == 0 ==> base_text(t) == "Rs "@ + t.spend@ + " across "@ + dec(
            t.products as nat,
        ) + " projects -> "@ + dec(t.funnel.l_leads as nat) + " CRM leads, none qualified yet."@,
        t.funnel.qualified > 0 && t.per_qualified is Some ==> base_text(t) == "Rs "@ + t.spend@
            + " across "@ + dec(t.products as nat) + " projects -> "@ + dec(t.funnel.l_leads as nat)
            + " CRM leads, "@ + dec(t.funnel.qualified as nat) + " qualified (Rs "@
            + (t.per_qualified->0)@ + " per qualified)."@,
{
    reveal_strlit("Rs ");
    reveal_strlit(" across ");
    reveal_strlit(" projects -> ");
    reveal_strlit(" CRM leads, none qualified yet.");
    reveal_strlit("Rs {} across {} projects -> {} CRM leads, none qualified yet.");
    reveal_strlit(" CRM leads, ");
    reveal_strlit(" qualified (Rs ");
    reveal_strlit(" per qualified).");
    reveal_strlit("Rs {} across {} projects -> {} CRM leads, {} qualified (Rs {} per qualified).");
    let hole = seq!['{', '}'];
    assert("Rs {} across {} projects -> {} CRM leads, none qualified yet."@ =~= "Rs "@ + hole + (
    " across "@ + hole + (" projects -> "@ + hole + " CRM leads, none qualified yet."@)));
    lemma_three_holes(
        "Rs {} across {} projects -> {} CRM leads, none qualified yet."@,
        "Rs "@,
        " across "@,
        " projects -> "@,
        " CRM leads, none qualified yet."@,
        t.spend@,
        dec(t.products as nat),
        dec(t.funnel.l_leads as nat),
    );
    assert("Rs {} across {} projects -> {} CRM leads, {} qualified (Rs {} per qualified)."@
        =~= "Rs "@ + hole + (" across "@ + hole + (" projects -> "@ + hole + (" CRM leads, "@ + hole
        + (" qualified (Rs "@ + hole + " per qualified)."@)))));
    lemma_five_holes(
        "Rs {} across {} projects -> {} CRM leads, {} qualified (Rs {} per qualified)."@,
        "Rs "@,
        " across "@,
        " projects -> "@,
        " CRM leads, "@,
        " qualified (Rs "@,
        " per qualified)."@,
        t.spend@,
        dec(t.products as nat),
        dec(t.funnel.l_leads as nat),
        dec(t.funnel.qualified as nat),
        (t.per_qualified->0)@,
    );
    if t.funnel.qualified > 0 && t.per_qualified is Some {
        let args = seq![
            t.spend@,
            dec(t.products as nat),
            dec(t.funnel.l_leads as nat),
            dec(t.funnel.qualified as nat),
            match t.per_qualified {
                Some(c) => c@,
                None => "0"@,
            },
        ];
        assert(args =~= seq![
            t.spend@,
            dec(t.products as nat),
            dec(t.funnel.l_leads as nat),
            dec(t.funnel.qualified as nat),
            (t.per_qualified->0)@,
        ]);
        assert(base_text(t) == filled(
            "Rs {} across {} projects -> {} CRM leads, {} qualified (Rs {} per qualified)."@,
            args,
        ));
    }
}

// Missing leads

/// The missing leads are the uncaptured ones of all cards together, and are told of just where
/// there are any, with their number.
pub proof fn law_missing_leads_are_a_sum(cards: Seq<BriefCard>)
    ensures
        missing(cards) == cards.fold_left(0int, |n: int, c: BriefCard| n + c.uncaptured),
        missing_lines(cards).len() > 0 <==> exists|i: int|
            0 <= i < cards.len() && (#[trigger] cards[i]).uncaptured > 0,
        missing(cards) > 0 ==> missing_lines(cards) == seq![
            line_of(
                "watch"@,
                dec(missing(cards))
                    + " lead(s) filled your ad form but never reached the CRM - recoverable, see the red banner below."@,
            ),
        ],
{
    lemma_missing(cards);
    let none = Seq::<char>::empty();
    reveal_strlit(
        "{} lead(s) filled your ad form but never reached the CRM - recoverable, see the red banner below.",
    );
    reveal_strlit(
        " lead(s) filled your ad form but never reached the CRM - recoverable, see the red banner below.",
    );
    assert("{} lead(s) filled your ad form but never reached the CRM - recoverable, see the red banner below."@
        =~= none + seq!['{', '}']
        + " lead(s) filled your ad form but never reached the CRM - recoverable, see the red banner below."@);
    lemma_one_hole(
        "{} lead(s) filled your ad form but never reached the CRM - recoverable, see the red banner below."@,
        none,
        " lead(s) filled your ad form but never reached the CRM - recoverable, see the red banner below."@,
        dec(missing(cards)),
    );
    assert(none + dec(missing(cards)) =~= dec(missing(cards)));
}

proof fn lemma_missing(cards: Seq<BriefCard>)
    ensures
        missing(cards) == cards.fold_left(0int, |n: int, c: BriefCard| n + c.uncaptured),
        missing(cards) > 0 <==> exists|i: int|
            0 <= i < cards.len() && (#[trigger] cards[i]).uncaptured > 0,
    decreases cards.len(),
{
    if cards.len() > 0 {
        let rest = cards.drop_last();
        lemma_missing(rest);
        assert(forall|i: int| 0 <= i < rest.len() ==> rest[i] == #[trigger] cards[i]);
        assert(forall|i: int| 0 <= i < rest.len() ==> #[trigger] rest[i] == cards[i]);
        assert(cards[cards.len() - 1] == cards.last());
    }
}

// Movers

/// The product that moved most is the first of those whose qualified tickets changed by most, up or
/// down, among the products that were in the last report.
pub proof fn law_top_mover_moved_most(v: Seq<Mover>)
    ensures
        match top_mover(v) {
            Some(b) => 0 <= b < v.len() && v[b].before is Some && forall|i: int|
                0 <= i < v.len() && (#[trigger] v[i]).before is Some ==> size(change(v[i])) <= size(
                    change(v[b]),
                ) && (i < b ==> size(change(v[i])) < size(change(v[b]))),
            None => forall|i: int| 0 <= i < v.len() ==> (#[trigger] v[i]).before is None,
        },
    decreases v.len(),
{
    if v.len() > 0 {
        let rest = v.drop_last();
        law_top_mover_moved_most(rest);
        assert(forall|i: int| 0 <= i < rest.len() ==> rest[i] == #[trigger] v[i]);
        assert(v[v.len() - 1] == v.last());
        match top_mover(rest) {
            Some(b) => {
                assert(rest[b] == v[b]);
            },
            None => {},
        }
    }
}

/// A product that moved most is told of as a win where it has two qualified tickets or more beyond
/// the last report, as a warning where it has two or more fewer, and not at all else.
pub proof fn law_movers_are_told(v: Seq<Mover>)
    ensures
        top_mover(v) is None ==> mover_lines(v).len() == 0,
        top_mover(v) matches Some(i) ==> {
            let m = v[i];
            let b = m.before->0;
            &&& m.now >= b + 2 ==> mover_lines(v) == seq![
                line_of(
                    "win"@,
                    m.product@ + " produced "@ + dec(m.now as nat) + " qualified leads, up "@ + dec(
                        (m.now - b) as nat,
                    ) + " on the last report."@,
                ),
            ]
            &&& b >= m.now + 2 ==> mover_lines(v) == seq![
                line_of(
                    "watch"@,
                    m.product@ + " fell to "@ + dec(m.now as nat) + " qualified leads ("@ + dec(
                        b as nat,
                    ) + " in the last report)."@,
                ),
            ]
            &&& m.now < b + 2 && b < m.now + 2 ==> mover_lines(v).len() == 0
        },
{
    law_top_mover_moved_most(v);
    match top_mover(v) {
        Some(i) => {
            let m = v[i];
            let b = m.before->0;
            let none = Seq::<char>::empty();
            let hole = seq!['{', '}'];
            reveal_strlit(" produced ");
            reveal_strlit(" qualified leads, up ");
            reveal_strlit(" on the last report.");
            reveal_strlit("{} produced {} qualified leads, up {} on the last report.");
            assert("{} produced {} qualified leads, up {} on the last report."@ =~= none + hole + (
            " produced "@ + hole + (" qualified leads, up "@ + hole + " on the last report."@)));
            lemma_three_holes(
                "{} produced {} qualified leads, up {} on the last report."@,
                none,
                " produced "@,
                " qualified leads, up "@,
                " on the last report."@,
                m.product@,
                dec(m.now as nat),
                dec(size(change(m))),
            );
            reveal_strlit(" fell to ");
            reveal_strlit(" qualified leads (");
            reveal_strlit(" in the last report).");
            reveal_strlit("{} fell to {} qualified leads ({} in the last report).");
            assert("{} fell to {} qualified leads ({} in the last report)."@ =~= none + hole + (
            " fell to "@ + hole + (" qualified leads ("@ + hole + " in the last report)."@)));
            lemma_three_holes(
                "{} fell to {} qualified leads ({} in the last report)."@,
                none,
                " fell to "@,
                " qualified leads ("@,
                " in the last report)."@,
                m.product@,
                dec(m.now as nat),
                dec(b as nat),
            );
            assert(none + m.product@ =~= m.product@);
        },
        None => {},
    }
}

// Contests

/// A creative competes for the best value with a qualified ticket and enough behind it, for the
/// cheapest leads with three leads and enough behind them, and for the worst leak with much spent
/// on it and no qualified ticket.
pub proof fn law_contests_have_their_entries(c: BriefCard)
    ensures
        can_be_value(c) <==> c.qualified > 0 && c.figures.enough,
        can_be_cheap(c) <==> c.m_leads > 2 && c.figures.enough,
        can_be_leak(c) <==> c.figures.is_heavy && c.qualified < 1,
{
}

/// The best value is told of just where the report has two qualified tickets or more, with their
/// price, and the winner is a good deal below that price. It names the winner, its product, its
/// qualified tickets and the two prices.
pub proof fn law_best_value_is_told(t: BriefTotals, cards: Seq<BriefCard>)
    ensures
        value_lines(t, cards).len() > 0 <==> t.per_qualified is Some && t.funnel.qualified > 1 && (
        winner_of(cards, Contest::Value) matches Some(i) && cards[i].figures.is_value),
        value_lines(t, cards).len() > 0 ==> {
            let c = cards[winner_of(cards, Contest::Value)->0];
            value_lines(t, cards) == seq![
                line_of(
                    "win"@,
                    "Best value: \""@ + c.name@ + "\" ("@ + c.product@ + ") - "@ + dec(
                        c.qualified as nat,
                    ) + " qualified at Rs "@ + c.figures.per_qualified@ + " each vs Rs "@ + (
                    t.per_qualified->0)@ + " portfolio average."@,
                ),
            ]
        },
{
    match (t.per_qualified, winner_of(cards, Contest::Value)) {
        (Some(all), Some(i)) => {
            let c = cards[i];
            let hole = seq!['{', '}'];
            reveal_strlit("Best value: \"");
            reveal_strlit("\" (");
            reveal_strlit(") - ");
            reveal_strlit(" qualified at Rs ");
            reveal_strlit(" each vs Rs ");
            reveal_strlit(" portfolio average.");
            reveal_strlit(
                "Best value: \"{}\" ({}) - {} qualified at Rs {} each vs Rs {} portfolio average.",
            );
            assert("Best value: \"{}\" ({}) - {} qualified at Rs {} each vs Rs {} portfolio average."@
                =~= "Best value: \""@ + hole + ("\" ("@ + hole + (") - "@ + hole + (
            " qualified at Rs "@ + hole + (" each vs Rs "@ + hole + " portfolio average."@)))));
            lemma_five_holes(
                "Best value: \"{}\" ({}) - {} qualified at Rs {} each vs Rs {} portfolio average."@,
                "Best value: \""@,
                "\" ("@,
                ") - "@,
                " qualified at Rs "@,
                " each vs Rs "@,
                " portfolio average."@,
                c.name@,
                c.product@,
                dec(c.qualified as nat),
                c.figures.per_qualified@,
                all@,
            );
        },
        _ => {},
    }
}

/// The worst leak is told of just where much of all money was spent on it. It names the creative,
/// its product, the money and the CRM leads.
pub proof fn law_worst_leak_is_told(cards: Seq<BriefCard>)
    ensures
        leak_lines(cards).len() > 0 <==> (winner_of(cards, Contest::Leak) matches Some(i)
            && cards[i].figures.is_heavy_of_all),
        leak_lines(cards).len() > 0 ==> {
            let c = cards[winner_of(cards, Contest::Leak)->0];
            leak_lines(cards) == seq![
                line_of(
                    "watch"@,
                    "Watch: \""@ + c.name@ + "\" ("@ + c.product@ + ") spent Rs "@ + c.figures.spend@
                        + " for "@ + dec(c.l_leads as nat) + " CRM leads and 0 qualified."@,
                ),
            ]
        },
{
    match winner_of(cards, Contest::Leak) {
        Some(i) => {
            let c = cards[i];
            let hole = seq!['{', '}'];
            reveal_strlit("Watch: \"");
            reveal_strlit("\" (");
            reveal_strlit(") spent Rs ");
            reveal_strlit(" for ");
            reveal_strlit(" CRM leads and 0 qualified.");
            reveal_strlit("Watch: \"{}\" ({}) spent Rs {} for {} CRM leads and 0 qualified.");
            assert("Watch: \"{}\" ({}) spent Rs {} for {} CRM leads and 0 qualified."@
                =~= "Watch: \""@ + hole + ("\" ("@ + hole + (") spent Rs "@ + hole + (" for "@ + hole
                + " CRM leads and 0 qualified."@))));
            lemma_four_holes(
                "Watch: \"{}\" ({}) spent Rs {} for {} CRM leads and 0 qualified."@,
                "Watch: \""@,
                "\" ("@,
                ") spent Rs "@,
                " for "@,
                " CRM leads and 0 qualified."@,
                c.name@,
                c.product@,
                c.figures.spend@,
                dec(c.l_leads as nat),
            );
        },
        None => {},
    }
}

/// The cheapest leads are told of just where the report has leads and the winner is a good deal
/// below their price. It names the creative, the price and the number of its leads.
pub proof fn law_cheapest_leads_are_told(t: BriefTotals, cards: Seq<BriefCard>)
    ensures
        cheap_lines(t, cards).len() > 0 <==> t.funnel.m_leads > 0 && (winner_of(
            cards,
            Contest::Cheap,
        ) matches Some(i) && cards[i].figures.is_cheap),
        cheap_lines(t, cards).len() > 0 ==> {
            let c = cards[winner_of(cards, Contest::Cheap)->0];
            cheap_lines(t, cards) == seq![
                line_of(
                    "win"@,
                    "Cheapest leads: \""@ + c.name@ + "\" at Rs "@ + c.figures.per_lead@
                        + " per Meta lead ("@ + dec(c.m_leads as nat) + " leads)."@,
                ),
            ]
        },
{
    match winner_of(cards, Contest::Cheap) {
        Some(i) => {
            let c = cards[i];
            let hole = seq!['{', '}'];
            reveal_strlit("Cheapest leads: \"");
            reveal_strlit("\" at Rs ");
            reveal_strlit(" per Meta lead (");
            reveal_strlit(" leads).");
            reveal_strlit("Cheapest leads: \"{}\" at Rs {} per Meta lead ({} leads).");
            assert("Cheapest leads: \"{}\" at Rs {} per Meta lead ({} leads)."@
                =~= "Cheapest leads: \""@ + hole + ("\" at Rs "@ + hole + (" per Meta lead ("@ + hole
                + " leads)."@)));
            lemma_three_holes(
                "Cheapest leads: \"{}\" at Rs {} per Meta lead ({} leads)."@,
                "Cheapest leads: \""@,
                "\" at Rs "@,
                " per Meta lead ("@,
                " leads)."@,
                c.name@,
                c.figures.per_lead@,
                dec(c.m_leads as nat),
            );
        },
        None => {},
    }
}

// Earlier reports

/// The dates of earlier reports are just those before the date, each once, and a later one comes
/// before an earlier one.
pub proof fn law_earlier_dates_are_latest_first(names: Seq<Seq<char>>, date: Seq<char>)
    ensures
        ({
            let d = dates_before(names, date);
            &&& forall|x: Seq<char>|
                #[trigger] d.contains(x) <==> names.contains(x) && text_lt(x, date)
            &&& forall|i: int, j: int|
                0 <= i < j < d.len() ==> text_lt(#[trigger] d[j], #[trigger] d[i])
        }),
{
    let e = earlier_names(names, date);
    let s = sorted_set(e);
    let d = dates_before(names, date);
    law_sorted_set(e);
    lemma_earlier(names, date);
    assert forall|x: Seq<char>|
        #[trigger] d.contains(x) <==> names.contains(x) && text_lt(x, date) by {
        if d.contains(x) {
            let k = choose|k: int| 0 <= k < d.len() && d[k] == x;
            assert(s[s.len() - 1 - k] == x);
            assert(s.contains(x));
        }
        if names.contains(x) && text_lt(x, date) {
            assert(e.contains(x));
            assert(s.contains(x));
            let k = choose|k: int| 0 <= k < s.len() && s[k] == x;
            assert(d[s.len() - 1 - k] == x);
        }
    }
}

proof fn lemma_earlier(names: Seq<Seq<char>>, date: Seq<char>)
    ensures
        forall|x: Seq<char>|
            #[trigger] earlier_names(names, date).contains(x) <==> names.contains(x) && text_lt(
                x,
                date,
            ),
    decreases names.len(),
{
    let e = earlier_names(names, date);
    if names.len() > 0 {
        let rest = names.drop_last();
        let before = earlier_names(rest, date);
        lemma_earlier(rest, date);
        assert forall|x: Seq<char>|
            #[trigger] e.contains(x) <==> names.contains(x) && text_lt(x, date) by {
            if e.contains(x) {
                let k = choose|k: int| 0 <= k < e.len() && e[k] == x;
                if k < before.len() {
                    assert(before[k] == x);
                    assert(before.contains(x));
                    let n = choose|n: int| 0 <= n < rest.len() && rest[n] == x;
                    assert(names[n] == x);
                } else {
                    assert(names[names.len() - 1] == x);
                }
            }
            if names.contains(x) && text_lt(x, date) {
                let n = choose|n: int| 0 <= n < names.len() && names[n] == x;
                if n < rest.len() {
                    assert(rest[n] == x);
                    assert(before.contains(x));
                    let k = choose|k: int| 0 <= k < before.len() && before[k] == x;
                    assert(e[k] == x);
                } else {
                    assert(e[before.len() as int] == x);
                }
            }
        }
    }
}

} // verus!
