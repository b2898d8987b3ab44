//! The brief of a report: a few lines, each with a guard, so that a quiet day reads quiet.

use crate::dates::{day_of, parse_day};
use crate::report::markup::{fill, filled};
use crate::report::summary::{count, count_at};
use crate::schema::{exec_view, CreativeCard, ExecLine, ExecLineV, FunnelCounts};
use crate::sets::{sort_set, sorted_set};
use crate::strs::{
    cat2, dec, decimal, decimal_len, decimal_wide, ends_in, ends_with, less, occurs_at, push_text,
    starts_with, text_lt, views,
};
use vstd::prelude::*;

pub mod laws;

verus! {

/// What the money spent on a creative says: comparisons, amounts as they are shown, and their
/// places in the order of amounts.
#[derive(Debug)]
pub struct CardFigures {
    /// Whether enough was spent to compare it.
    pub enough: bool,
    pub spend: String,
    pub spend_place: u64,
    /// What a qualified ticket costs, and whether that is little.
    pub per_qualified: String,
    pub per_qualified_place: u64,
    pub is_value: bool,
    /// What a lead costs, and whether that is little.
    pub per_lead: String,
    pub per_lead_place: u64,
    pub is_cheap: bool,
    /// Whether much of what the product spends goes there, and much of what all of them spend.
    pub is_heavy: bool,
    pub is_heavy_of_all: bool,
}

/// A creative in the brief.
#[derive(Debug)]
pub struct BriefCard {
    pub product: String,
    pub name: String,
    pub m_leads: u64,
    pub l_leads: u64,
    pub qualified: u64,
    pub uncaptured: u64,
    pub figures: CardFigures,
}

/// Puts a creative in the brief.
pub fn brief_card(product: &str, c: &CreativeCard, figures: CardFigures) -> (r: BriefCard)
    ensures
        r.product@ == product@,
        r.name@ == c@.display_name,
        r.m_leads == count_at(c@, 2),
        r.l_leads == count_at(c@, 3),
        r.qualified == count_at(c@, 4),
        r.uncaptured == (match c@.segmentation {
            Some(s) => s.uncaptured,
            None => 0,
        }),
        r.figures == figures,
{
    BriefCard {
        product: product.to_owned(),
        name: c.display_name.clone(),
        m_leads: count(c, 2),
        l_leads: count(c, 3),
        qualified: count(c, 4),
        uncaptured: match &c.segmentation {
            Some(s) => s.uncaptured,
            None => 0,
        },
        figures,
    }
}

/// What the brief says of all products: their counts, how many they are, what was spent and what a
/// qualified ticket costs, as they are shown.
#[derive(Debug)]
pub struct BriefTotals {
    pub funnel: FunnelCounts,
    pub products: usize,
    pub spend: String,
    pub per_qualified: Option<String>,
}

/// The qualified tickets of a product, now and in the report before, where it is in that.
#[derive(Debug)]
pub struct Mover {
    pub product: String,
    pub now: u64,
    pub before: Option<u64>,
}

pub open spec fn line_of(tone: Seq<char>, text: Seq<char>) -> ExecLineV {
    ExecLineV { tone, text }
}

fn line(tone: &str, text: String) -> (r: ExecLine)
    ensures
        r@ == line_of(tone@, text@),
{
    ExecLine { tone: tone.to_owned(), text }
}

// Missing leads

/// How many leads should be in the CRM and are not.
pub open spec fn missing(cards: Seq<BriefCard>) -> nat
    decreases cards.len(),
{
    if cards.len() == 0 {
        0
    } else {
        missing(cards.drop_last()) + cards.last().uncaptured as nat
    }
}

fn count_missing(cards: &Vec<BriefCard>) -> (r: u128)
    ensures
        r == missing(cards@),
{
    let mut n: u128 = 0;
    let mut i: usize = 0;
    assert(cards@.take(0) =~= Seq::empty());
    while i < cards.len()
        invariant
            i <= cards@.len(),
            n == missing(cards@.take(i as int)),
            n <= i * 0xffff_ffff_ffff_ffff,
        decreases cards.len() - i,
    {
        assert(cards@.take(i + 1).drop_last() =~= cards@.take(i as int));
        n = n + cards[i].uncaptured as u128;
        i += 1;
    }
    assert(cards@.take(i as int) =~= cards@);
    n
}

pub open spec fn missing_lines(cards: Seq<BriefCard>) -> Seq<ExecLineV> {
    if missing(cards) > 0 {
        seq![
            line_of(
                "watch"@,
                filled(
                    "{} lead(s) filled your ad form but never reached the CRM - recoverable, see the red banner below."@,
                    seq![dec(missing(cards))],
                ),
            ),
        ]
    } else {
        Seq::empty()
    }
}

// Movers

/// By how much the qualified tickets of a product changed.
pub open spec fn change(m: Mover) -> int {
    match m.before {
        Some(b) => m.now - b,
        None => 0,
    }
}

pub open spec fn size(i: int) -> nat {
    if i < 0 {
        (-i) as nat
    } else {
        i as nat
    }
}

/// The product that changed most, the first one of several.
pub open spec fn top_mover(v: Seq<Mover>) -> Option<int>
    decreases v.len(),
{
    if v.len() == 0 {
        None
    } else {
        let before = top_mover(v.drop_last());
        let m = v.last();
        if m.before is None {
            before
        } else {
            match before {
                Some(b) => if size(change(m)) > size(change(v[b])) {
                    Some(v.len() - 1)
                } else {
                    before
                },
                None => Some(v.len() - 1),
            }
        }
    }
}

pub open spec fn mover_lines(v: Seq<Mover>) -> Seq<ExecLineV> {
    match top_mover(v) {
        Some(i) => {
            let m = v[i];
            if size(change(m)) < 2 {
                Seq::empty()
            } else if change(m) > 0 {
                seq![
                    line_of(
                        "win"@,
                        filled(
                            "{} produced {} qualified leads, up {} on the last report."@,
                            seq![m.product@, dec(m.now as nat), dec(size(change(m)))],
                        ),
                    ),
                ]
            } else {
                seq![
                    line_of(
                        "watch"@,
                        filled(
                            "{} fell to {} qualified leads ({} in the last report)."@,
                            seq![m.product@, dec(m.now as nat), dec(m.before->0 as nat)],
                        ),
                    ),
                ]
            }
        },
        None => Seq::empty(),
    }
}

fn change_size(m: &Mover) -> (r: u64)
    ensures
        r == size(change(*m)),
{
    match m.before {
        Some(b) => if m.now >= b {
            m.now - b
        } else {
            b - m.now
        },
        None => 0,
    }
}

fn find_mover(v: &Vec<Mover>) -> (r: Option<usize>)
    ensures
        match r {
            Some(i) => i < v@.len() && top_mover(v@) == Some(i as int) && v@[i as int].before is Some,
            None => top_mover(v@) is None,
        },
{
    let mut best: Option<usize> = None;
    let mut i: usize = 0;
    assert(v@.take(0) =~= Seq::empty());
    while i < v.len()
        invariant
            i <= v@.len(),
            match best {
                Some(b) => b < i && top_mover(v@.take(i as int)) == Some(b as int)
                    && v@[b as int].before is Some,
                None => top_mover(v@.take(i as int)) is None,
            },
        decreases v.len() - i,
    {
        let ghost now = v@.take(i + 1);
        assert(now.drop_last() =~= v@.take(i as int));
        if v[i].before.is_some() {
            let further = match best {
                Some(b) => {
                    assert(now[b as int] == v@[b as int]);
                    change_size(&v[i]) > change_size(&v[b])
                },
                None => true,
            };
            if further {
                best = Some(i);
            }
        }
        i += 1;
    }
    assert(v@.take(i as int) =~= v@);
    best
}

fn push_mover(out: &mut Vec<ExecLine>, v: &Vec<Mover>)
    ensures
        exec_view(final(out)@) == exec_view(old(out)@) + mover_lines(v@),
{
    let ghost given = exec_view(out@);
    match find_mover(v) {
        Some(i) => {
            let m = &v[i];
            let by: u64 = change_size(m);
            let before: u64 = match m.before {
                Some(b) => b,
                None => 0,
            };
            let (n, b, d) = (decimal(m.now), decimal(before), decimal(by));
            if by >= 2 {
                let l = if m.now > before {
                    line(
                        "win",
                        fill(
                            "{} produced {} qualified leads, up {} on the last report.",
                            &vec![m.product.as_str(), n.as_str(), d.as_str()],
                        ),
                    )
                } else {
                    line(
                        "watch",
                        fill(
                            "{} fell to {} qualified leads ({} in the last report).",
                            &vec![m.product.as_str(), n.as_str(), b.as_str()],
                        ),
                    )
                };
                assert(exec_view(out@.push(l)) =~= given + seq![l@]);
                assert(seq![l@] == mover_lines(v@));
                out.push(l);
            } else {
                assert(given + Seq::empty() =~= given);
            }
        },
        None => {
            assert(given + Seq::empty() =~= given);
        },
    }
}

// Creatives

/// Whether a creative can be the one of best value.
pub open spec fn can_be_value(c: BriefCard) -> bool {
    c.qualified >= 1 && c.figures.enough
}

pub open spec fn can_be_cheap(c: BriefCard) -> bool {
    c.m_leads >= 3 && c.figures.enough
}

pub open spec fn can_be_leak(c: BriefCard) -> bool {
    c.figures.is_heavy && c.qualified == 0
}

/// Which creatives compete, and by what.
#[derive(Debug, Clone, Copy, PartialEq, Eq, Structural)]
pub enum Contest {
    Value,
    Cheap,
    Leak,
}

pub open spec fn competes(c: BriefCard, k: Contest) -> bool {
    match k {
        Contest::Value => can_be_value(c),
        Contest::Cheap => can_be_cheap(c),
        Contest::Leak => can_be_leak(c),
    }
}

/// Whether a creative goes before another: where its cost is less, or where at least as much is
/// spent on it.
pub open spec fn beats(a: BriefCard, b: BriefCard, k: Contest) -> bool {
    match k {
        Contest::Value => a.figures.per_qualified_place < b.figures.per_qualified_place,
        Contest::Cheap => a.figures.per_lead_place < b.figures.per_lead_place,
        Contest::Leak => a.figures.spend_place >= b.figures.spend_place,
    }
}

/// The winner of a contest.
pub open spec fn winner_of(cards: Seq<BriefCard>, k: Contest) -> Option<int>
    decreases cards.len(),
{
    if cards.len() == 0 {
        None
    } else {
        let before = winner_of(cards.drop_last(), k);
        let c = cards.last();
        if !competes(c, k) {
            before
        } else {
            match before {
                Some(b) => if beats(c, cards[b], k) {
                    Some(cards.len() - 1)
                } else {
                    before
                },
                None => Some(cards.len() - 1),
            }
        }
    }
}

fn may_compete(c: &BriefCard, k: Contest) -> (r: bool)
    ensures
        r == competes(*c, k),
{
    match k {
        Contest::Value => c.qualified >= 1 && c.figures.enough,
        Contest::Cheap => c.m_leads >= 3 && c.figures.enough,
        Contest::Leak => c.figures.is_heavy && c.qualified == 0,
    }
}

fn goes_before(a: &BriefCard, b: &BriefCard, k: Contest) -> (r: bool)
    ensures
        r == beats(*a, *b, k),
{
    match k {
        Contest::Value => a.figures.per_qualified_place < b.figures.per_qualified_place,
        Contest::Cheap => a.figures.per_lead_place < b.figures.per_lead_place,
        Contest::Leak => a.figures.spend_place >= b.figures.spend_place,
    }
}

fn find_winner(cards: &Vec<BriefCard>, k: Contest) -> (r: Option<usize>)
    ensures
        match r {
            Some(i) => i < cards@.len() && winner_of(cards@, k) == Some(i as int),
            None => winner_of(cards@, k) is None,
        },
{
    let mut best: Option<usize> = None;
    let mut i: usize = 0;
    assert(cards@.take(0) =~= Seq::empty());
    while i < cards.len()
        invariant
            i <= cards@.len(),
            match best {
                Some(b) => b < i && winner_of(cards@.take(i as int), k) == Some(b as int),
                None => winner_of(cards@.take(i as int), k) is None,
            },
        decreases cards.len() - i,
    {
        let ghost now = cards@.take(i + 1);
        assert(now.drop_last() =~= cards@.take(i as int));
        if may_compete(&cards[i], k) {
            let ahead = match best {
                Some(b) => {
                    assert(now[b as int] == cards@[b as int]);
                    goes_before(&cards[i], &cards[b], k)
                },
                None => true,
            };
            if ahead {
                best = Some(i);
            }
        }
        i += 1;
    }
    assert(cards@.take(i as int) =~= cards@);
    best
}

/// The winner of a contest competes in it, and no other one that does so goes before it.
pub proof fn law_winner_is_unbeaten(cards: Seq<BriefCard>, k: Contest)
    ensures
        match winner_of(cards, k) {
            Some(w) => 0 <= w < cards.len() && competes(cards[w], k) && forall|i: int|
                0 <= i < cards.len() && i != w && competes(#[trigger] cards[i], k) ==> !beats(
                    cards[i],
                    cards[w],
                    k,
                ) || (k is Leak && i < w),
            None => forall|i: int| 0 <= i < cards.len() ==> !competes(#[trigger] cards[i], k),
        },
    decreases cards.len(),
{
    if cards.len() > 0 {
        let fewer = cards.drop_last();
        law_winner_is_unbeaten(fewer, k);
        assert(forall|i: int| 0 <= i < fewer.len() ==> fewer[i] == #[trigger] cards[i]);
    }
}

pub open spec fn value_lines(t: BriefTotals, cards: Seq<BriefCard>) -> Seq<ExecLineV> {
    match (t.per_qualified, winner_of(cards, Contest::Value)) {
        (Some(all), Some(i)) => if t.funnel.qualified >= 2 && cards[i].figures.is_value {
            seq![
                line_of(
                    "win"@,
                    filled(
                        "Best value: \"{}\" ({}) - {} qualified at Rs {} each vs Rs {} portfolio average."@,
                        seq![
                            cards[i].name@,
                            cards[i].product@,
                            dec(cards[i].qualified as nat),
                            cards[i].figures.per_qualified@,
                            all@,
                        ],
                    ),
                ),
            ]
        } else {
            Seq::empty()
        },
        _ => Seq::empty(),
    }
}

pub open spec fn leak_lines(cards: Seq<BriefCard>) -> Seq<ExecLineV> {
    match winner_of(cards, Contest::Leak) {
        Some(i) => if cards[i].figures.is_heavy_of_all {
            seq![
                line_of(
                    "watch"@,
                    filled(
                        "Watch: \"{}\" ({}) spent Rs {} for {} CRM leads and 0 qualified."@,
                        seq![
                            cards[i].name@,
                            cards[i].product@,
                            cards[i].figures.spend@,
                            dec(cards[i].l_leads as nat),
                        ],
                    ),
                ),
            ]
        } else {
            Seq::empty()
        },
        None => Seq::empty(),
    }
}

pub open spec fn cheap_lines(t: BriefTotals, cards: Seq<BriefCard>) -> Seq<ExecLineV> {
    match winner_of(cards, Contest::Cheap) {
        Some(i) => if t.funnel.m_leads > 0 && cards[i].figures.is_cheap {
            seq![
                line_of(
                    "win"@,
                    filled(
                        "Cheapest leads: \"{}\" at Rs {} per Meta lead ({} leads)."@,
                        seq![
                            cards[i].name@,
                            cards[i].figures.per_lead@,
                            dec(cards[i].m_leads as nat),
                        ],
                    ),
                ),
            ]
        } else {
            Seq::empty()
        },
        None => Seq::empty(),
    }
}

fn push_line(out: &mut Vec<ExecLine>, l: ExecLine)
    ensures
        exec_view(final(out)@) == exec_view(old(out)@) + seq![l@],
{
    assert(exec_view(out@.push(l)) =~= exec_view(out@) + seq![l@]);
    out.push(l);
}

fn push_value(out: &mut Vec<ExecLine>, t: &BriefTotals, cards: &Vec<BriefCard>)
    ensures
        exec_view(final(out)@) == exec_view(old(out)@) + value_lines(*t, cards@),
{
    let ghost given = exec_view(out@);
    match (&t.per_qualified, find_winner(cards, Contest::Value)) {
        (Some(all), Some(i)) => {
            let c = &cards[i];
            if t.funnel.qualified >= 2 && c.figures.is_value {
                let q = decimal(c.qualified);
                let l = line(
                    "win",
                    fill(
                        "Best value: \"{}\" ({}) - {} qualified at Rs {} each vs Rs {} portfolio average.",
                        &vec![
                            c.name.as_str(),
                            c.product.as_str(),
                            q.as_str(),
                            c.figures.per_qualified.as_str(),
                            all.as_str(),
                        ],
                    ),
                );
                assert(seq![l@] == value_lines(*t, cards@));
                push_line(out, l);
            } else {
                assert(given + Seq::empty() =~= given);
            }
        },
        _ => {
            assert(given + Seq::empty() =~= given);
        },
    }
}

fn push_leak(out: &mut Vec<ExecLine>, cards: &Vec<BriefCard>)
    ensures
        exec_view(final(out)@) == exec_view(old(out)@) + leak_lines(cards@),
{
    let ghost given = exec_view(out@);
    match find_winner(cards, Contest::Leak) {
        Some(i) => {
            let c = &cards[i];
            if c.figures.is_heavy_of_all {
                let n = decimal(c.l_leads);
                let l = line(
                    "watch",
                    fill(
                        "Watch: \"{}\" ({}) spent Rs {} for {} CRM leads and 0 qualified.",
                        &vec![
                            c.name.as_str(),
                            c.product.as_str(),
                            c.figures.spend.as_str(),
                            n.as_str(),
                        ],
                    ),
                );
                assert(seq![l@] == leak_lines(cards@));
                push_line(out, l);
            } else {
                assert(given + Seq::empty() =~= given);
            }
        },
        None => {
            assert(given + Seq::empty() =~= given);
        },
    }
}

fn push_cheap(out: &mut Vec<ExecLine>, t: &BriefTotals, cards: &Vec<BriefCard>)
    ensures
        exec_view(final(out)@) == exec_view(old(out)@) + cheap_lines(*t, cards@),
{
    let ghost given = exec_view(out@);
    match find_winner(cards, Contest::Cheap) {
        Some(i) => {
            let c = &cards[i];
            if t.funnel.m_leads > 0 && c.figures.is_cheap {
                let n = decimal(c.m_leads);
                let l = line(
                    "win",
                    fill(
                        "Cheapest leads: \"{}\" at Rs {} per Meta lead ({} leads).",
                        &vec![c.name.as_str(), c.figures.per_lead.as_str(), n.as_str()],
                    ),
                );
                assert(seq![l@] == cheap_lines(*t, cards@));
                push_line(out, l);
            } else {
                assert(given + Seq::empty() =~= given);
            }
        },
        None => {
            assert(given + Seq::empty() =~= given);
        },
    }
}

// The brief

/// What is said of every report.
pub open spec fn base_text(t: BriefTotals) -> Seq<char> {
    if t.funnel.qualified == 0 {
        filled(
            "Rs {} across {} projects -> {} CRM leads, none qualified yet."@,
            seq![t.spend@, dec(t.products as nat), dec(t.funnel.l_leads as nat)],
        )
    } else {
        filled(
            "Rs {} across {} projects -> {} CRM leads, {} qualified (Rs {} per qualified)."@,
            seq![
                t.spend@,
                dec(t.products as nat),
                dec(t.funnel.l_leads as nat),
                dec(t.funnel.qualified as nat),
                match t.per_qualified {
                    Some(c) => c@,
                    None => "0"@,
                },
            ],
        )
    }
}

pub open spec fn is_quiet(t: BriefTotals) -> bool {
    t.funnel.m_leads < 3
}

/// The lines on single products and creatives, which a quiet day does not have.
pub open spec fn lively_lines(
    t: BriefTotals,
    cards: Seq<BriefCard>,
    movers: Seq<Mover>,
) -> Seq<ExecLineV> {
    let lines = missing_lines(cards) + mover_lines(movers) + value_lines(t, cards) + leak_lines(
        cards,
    );
    if lines.len() < 3 {
        lines + cheap_lines(t, cards)
    } else {
        lines
    }
}

/// All lines of a brief.
pub open spec fn all_lines(
    t: BriefTotals,
    cards: Seq<BriefCard>,
    movers: Seq<Mover>,
) -> Seq<ExecLineV> {
    if is_quiet(t) {
        missing_lines(cards) + seq![line_of("info"@, "Quiet day: "@ + base_text(t))]
    } else {
        lively_lines(t, cards, movers) + seq![line_of("info"@, base_text(t))]
    }
}

/// The brief of a report: five lines at most.
pub open spec fn brief_of(
    t: BriefTotals,
    cards: Seq<BriefCard>,
    movers: Seq<Mover>,
) -> Seq<ExecLineV> {
    let lines = all_lines(t, cards, movers);
    if lines.len() > 5 {
        lines.take(5)
    } else {
        lines
    }
}

fn base(t: &BriefTotals) -> (r: String)
    ensures
        r@ == base_text(*t),
{
    let (n, l, q) = (
        decimal_len(t.products),
        decimal(t.funnel.l_leads),
        decimal(t.funnel.qualified),
    );
    if t.funnel.qualified == 0 {
        fill(
            "Rs {} across {} projects -> {} CRM leads, none qualified yet.",
            &vec![t.spend.as_str(), n.as_str(), l.as_str()],
        )
    } else {
        let cost = match &t.per_qualified {
            Some(c) => c.as_str(),
            None => "0",
        };
        fill(
            "Rs {} across {} projects -> {} CRM leads, {} qualified (Rs {} per qualified).",
            &vec![t.spend.as_str(), n.as_str(), l.as_str(), q.as_str(), cost],
        )
    }
}

/// Makes the brief of a report; there are no movers where there is no report before it.
pub fn brief(t: &BriefTotals, cards: &Vec<BriefCard>, movers: &Vec<Mover>) -> (r: Vec<ExecLine>)
    ensures
        exec_view(r@) == brief_of(*t, cards@, movers@),
        1 <= r@.len() <= 5,
{
    let mut out: Vec<ExecLine> = Vec::new();
    assert(exec_view(out@) =~= Seq::empty());
    let n: u128 = count_missing(cards);
    if n > 0 {
        let d = decimal_wide(n);
        let l = line(
            "watch",
            fill(
                "{} lead(s) filled your ad form but never reached the CRM - recoverable, see the red banner below.",
                &vec![d.as_str()],
            ),
        );
        push_line(&mut out, l);
    }
    assert(exec_view(out@) =~= missing_lines(cards@));
    let quiet = t.funnel.m_leads < 3;
    if !quiet {
        push_mover(&mut out, movers);
        push_value(&mut out, t, cards);
        push_leak(&mut out, cards);
        assert(exec_view(out@).len() == out@.len());
        if out.len() < 3 {
            push_cheap(&mut out, t, cards);
        }
        assert(exec_view(out@) =~= lively_lines(*t, cards@, movers@));
        push_line(&mut out, line("info", base(t)));
    } else {
        push_line(&mut out, line("info", cat2("Quiet day: ", base(t).as_str())));
    }
    assert(exec_view(out@) =~= all_lines(*t, cards@, movers@));
    assert(exec_view(out@).len() == out@.len());
    if out.len() > 5 {
        let ghost all = exec_view(out@);
        out.truncate(5);
        assert(exec_view(out@) =~= all.take(5));
    }
    assert(exec_view(out@).len() == out@.len());
    out
}

/// Missing leads come first.
pub proof fn law_missing_leads_come_first(t: BriefTotals, cards: Seq<BriefCard>, movers: Seq<Mover>)
    requires
        missing(cards) > 0,
    ensures
        brief_of(t, cards, movers)[0] == missing_lines(cards)[0],
{
    let lines = all_lines(t, cards, movers);
    assert(lines[0] == missing_lines(cards)[0]);
}

// The report before

/// The dates of reports before a date, the latest first.
pub open spec fn dates_before(names: Seq<Seq<char>>, date: Seq<char>) -> Seq<Seq<char>> {
    sorted_set(earlier_names(names, date)).reverse()
}

pub open spec fn earlier_names(names: Seq<Seq<char>>, date: Seq<char>) -> Seq<Seq<char>>
    decreases names.len(),
{
    if names.len() == 0 {
        Seq::empty()
    } else {
        let before = earlier_names(names.drop_last(), date);
        if text_lt(names.last(), date) {
            before.push(names.last())
        } else {
            before
        }
    }
}

/// Lists where reports before a date are looked for.
pub fn prior_dates(names: &Vec<String>, date: &str) -> (r: Vec<String>)
    ensures
        views(r@) == dates_before(views(names@), date@),
{
    let ghost all = views(names@);
    let mut kept: Vec<String> = Vec::new();
    let mut i: usize = 0;
    assert(views(kept@) =~= Seq::empty());
    assert(all.take(0) =~= Seq::empty());
    while i < names.len()
        invariant
            i <= names@.len(),
            all == views(names@),
            views(kept@) == earlier_names(all.take(i as int), date@),
        decreases names.len() - i,
    {
        assert(all.take(i + 1).drop_last() =~= all.take(i as int));
        assert(all[i as int] == names@[i as int]@);
        if less(names[i].as_str(), date) {
            push_text(&mut kept, names[i].clone());
        }
        i += 1;
    }
    assert(all.take(i as int) =~= all);
    let each = sort_set(&kept);
    let ghost want = views(each@).reverse();
    let mut out: Vec<String> = Vec::new();
    let mut n: usize = each.len();
    assert(views(out@) =~= want.take(0));
    while n > 0
        invariant
            n <= each@.len(),
            want == views(each@).reverse(),
            views(out@) == want.take(each@.len() - n),
        decreases n,
    {
        n -= 1;
        let ghost k = each@.len() - n - 1;
        assert(want[k] == each@[n as int]@);
        assert(want.take(k + 1) =~= want.take(k).push(want[k]));
        push_text(&mut out, each[n].clone());
    }
    assert(want.take(each@.len() as int) =~= want);
    out
}

/// Whether a file may hold a report.
pub open spec fn is_report_name(name: Seq<char>) -> bool {
    occurs_at(name, "creative-report"@, 0) && ends_in(name, ".json"@)
}

pub fn is_report_file(name: &str) -> (r: bool)
    ensures
        r == is_report_name(name@),
{
    starts_with(name, "creative-report") && ends_with(name, ".json")
}

/// Whether a report covers just so many days.
pub open spec fn covers(since: Seq<char>, until: Seq<char>, days: int) -> bool {
    match (day_of(since), day_of(until)) {
        (Some(s), Some(u)) => u - s + 1 == days,
        _ => days == -1,
    }
}

/// Whether a report can be compared with one of so many days.
pub fn is_comparable(since: &str, until: &str, days: i64) -> (r: bool)
    ensures
        r == covers(since@, until@, days as int),
{
    match (parse_day(since), parse_day(until)) {
        (Some(s), Some(u)) => u as i64 - s as i64 + 1 == days,
        _ => days == -1,
    }
}

} // verus!
