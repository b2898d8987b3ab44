//! The sums of a report, the order of its cards, and its summary as a text.

use crate::rank::{keys_view, order_view, rank, ranked};
use crate::report::card::{cards_view, stages_view, CardV};
use crate::report::markup::{fill, filled};
use crate::report::{ReportV, SectionV};
use crate::schema::{CreativeCard, CreativeReport, FunnelCounts, FunnelStage, Kpis, ProductSection};
use crate::strs::{dec, decimal, decimal_len, end_lines, join, joined, push_text, text_lines, views};
use vstd::prelude::*;

pub mod laws;

verus! {

// Steps of a funnel

/// The count of a step of a funnel; 0 where there is no such step.
pub open spec fn count_at(c: CardV, i: int) -> nat {
    if 0 <= i < c.funnel.len() {
        c.funnel[i].1
    } else {
        0
    }
}

pub fn count(c: &CreativeCard, i: usize) -> (r: u64)
    ensures
        r == count_at(c@, i as int),
{
    if i < c.funnel.len() {
        assert(c@.funnel[i as int] == (c.funnel@[i as int].stage@, c.funnel@[i as int].count as nat));
        c.funnel[i].count
    } else {
        0
    }
}

// Order

/// By what a card is ranked: bookings, visits, qualified tickets, tickets, leads, and the whole
/// rupees spent.
pub open spec fn rank_key(c: CardV, spent: u64) -> Seq<u64> {
    seq![
        count_at(c, 6) as u64,
        count_at(c, 5) as u64,
        count_at(c, 4) as u64,
        count_at(c, 3) as u64,
        count_at(c, 2) as u64,
        spent,
    ]
}

pub open spec fn rank_keys(cards: Seq<CardV>, spent: Seq<u64>) -> Seq<Seq<u64>> {
    Seq::new(cards.len(), |i: int| rank_key(cards[i], spent[i]))
}

/// Ranks cards, the best one first.
pub fn card_order(cards: &Vec<CreativeCard>, spent: &Vec<u64>) -> (r: Vec<usize>)
    requires
        spent@.len() == cards@.len(),
    ensures
        order_view(r@) == ranked(rank_keys(cards_view(cards@), spent@), cards@.len() as int),
        r@.len() == cards@.len(),
        forall|k: int| 0 <= k < r@.len() ==> (#[trigger] r@[k]) < cards@.len(),
{
    let ghost want = rank_keys(cards_view(cards@), spent@);
    let mut keys: Vec<Vec<u64>> = Vec::new();
    let mut i: usize = 0;
    while i < cards.len()
        invariant
            i <= cards@.len(),
            spent@.len() == cards@.len(),
            want == rank_keys(cards_view(cards@), spent@),
            keys_view(keys@) == want.take(i as int),
        decreases cards.len() - i,
    {
        assert(cards_view(cards@)[i as int] == cards@[i as int]@);
        let k: Vec<u64> = vec![
            count(&cards[i], 6),
            count(&cards[i], 5),
            count(&cards[i], 4),
            count(&cards[i], 3),
            count(&cards[i], 2),
            spent[i],
        ];
        assert(k@ =~= want[i as int]);
        assert(keys_view(keys@.push(k)) =~= keys_view(keys@).push(k@));
        assert(want.take(i + 1) =~= want.take(i as int).push(want[i as int]));
        keys.push(k);
        i += 1;
    }
    assert(want.take(i as int) =~= want);
    assert(keys_view(keys@).len() == keys@.len());
    rank(&keys)
}

// Sums

#[verifier::ext_equal]
pub struct KpiSum {
    pub impressions: nat,
    pub clicks: nat,
    pub m_leads: nat,
    pub l_leads: nat,
    pub qualified: nat,
    pub visit: nat,
    pub booking: nat,
}

pub open spec fn no_kpis() -> KpiSum {
    KpiSum {
        impressions: 0,
        clicks: 0,
        m_leads: 0,
        l_leads: 0,
        qualified: 0,
        visit: 0,
        booking: 0,
    }
}

pub open spec fn kpis_plus(a: KpiSum, b: KpiSum) -> KpiSum {
    KpiSum {
        impressions: a.impressions + b.impressions,
        clicks: a.clicks + b.clicks,
        m_leads: a.m_leads + b.m_leads,
        l_leads: a.l_leads + b.l_leads,
        qualified: a.qualified + b.qualified,
        visit: a.visit + b.visit,
        booking: a.booking + b.booking,
    }
}

pub open spec fn kpis_sum(k: Kpis) -> KpiSum {
    KpiSum {
        impressions: k.impressions as nat,
        clicks: k.clicks as nat,
        m_leads: k.funnel.m_leads as nat,
        l_leads: k.funnel.l_leads as nat,
        qualified: k.funnel.qualified as nat,
        visit: k.funnel.visit as nat,
        booking: k.funnel.booking as nat,
    }
}

pub open spec fn card_sum(c: CardV) -> KpiSum {
    KpiSum {
        impressions: c.delivery.sum.impressions,
        clicks: c.delivery.sum.clicks,
        m_leads: count_at(c, 2),
        l_leads: count_at(c, 3),
        qualified: count_at(c, 4),
        visit: count_at(c, 5),
        booking: count_at(c, 6),
    }
}

/// What cards brought together.
pub open spec fn cards_sum(cards: Seq<CardV>) -> KpiSum
    decreases cards.len(),
{
    if cards.len() == 0 {
        no_kpis()
    } else {
        kpis_plus(cards_sum(cards.drop_last()), card_sum(cards.last()))
    }
}

/// What products brought together.
pub open spec fn all_sum(v: Seq<Kpis>) -> KpiSum
    decreases v.len(),
{
    if v.len() == 0 {
        no_kpis()
    } else {
        kpis_plus(all_sum(v.drop_last()), kpis_sum(v.last()))
    }
}

pub open spec fn kpis_fit(k: KpiSum) -> bool {
    &&& k.impressions <= u64::MAX
    &&& k.clicks <= u64::MAX
    &&& k.m_leads <= u64::MAX
    &&& k.l_leads <= u64::MAX
    &&& k.qualified <= u64::MAX
    &&& k.visit <= u64::MAX
    &&& k.booking <= u64::MAX
}

fn kpis_of_card(c: &CreativeCard) -> (r: Kpis)
    ensures
        kpis_sum(r) == card_sum(c@),
        r.unattributed_l_leads == 0,
{
    Kpis {
        impressions: c.delivery.impressions,
        clicks: c.delivery.clicks,
        funnel: FunnelCounts {
            m_leads: count(c, 2),
            l_leads: count(c, 3),
            qualified: count(c, 4),
            visit: count(c, 5),
            booking: count(c, 6),
        },
        unattributed_l_leads: 0,
    }
}

fn add_kpis(a: Kpis, b: Kpis) -> (r: Option<Kpis>)
    ensures
        match r {
            Some(k) => kpis_sum(k) == kpis_plus(kpis_sum(a), kpis_sum(b))
                && k.unattributed_l_leads == a.unattributed_l_leads,
            None => !kpis_fit(kpis_plus(kpis_sum(a), kpis_sum(b))),
        },
{
    let head = (
        a.impressions.checked_add(b.impressions),
        a.clicks.checked_add(b.clicks),
        a.funnel.m_leads.checked_add(b.funnel.m_leads),
    );
    let tail = (
        a.funnel.l_leads.checked_add(b.funnel.l_leads),
        a.funnel.qualified.checked_add(b.funnel.qualified),
        a.funnel.visit.checked_add(b.funnel.visit),
        a.funnel.booking.checked_add(b.funnel.booking),
    );
    match (head, tail) {
        (
            (Some(impressions), Some(clicks), Some(m_leads)),
            (Some(l_leads), Some(qualified), Some(visit), Some(booking)),
        ) => Some(
            Kpis {
                impressions,
                clicks,
                funnel: FunnelCounts { m_leads, l_leads, qualified, visit, booking },
                unattributed_l_leads: a.unattributed_l_leads,
            },
        ),
        _ => None,
    }
}

fn zero_kpis(unattributed: u64) -> (r: Kpis)
    ensures
        kpis_sum(r) == no_kpis(),
        r.unattributed_l_leads == unattributed,
{
    Kpis {
        impressions: 0,
        clicks: 0,
        funnel: FunnelCounts { m_leads: 0, l_leads: 0, qualified: 0, visit: 0, booking: 0 },
        unattributed_l_leads: unattributed,
    }
}

proof fn lemma_cards_sum_grows(cards: Seq<CardV>, n: int)
    requires
        0 <= n <= cards.len(),
        kpis_fit(cards_sum(cards)),
    ensures
        kpis_fit(cards_sum(cards.take(n))),
    decreases cards.len() - n,
{
    if n < cards.len() {
        lemma_cards_sum_grows(cards, n + 1);
        assert(cards.take(n + 1).drop_last() =~= cards.take(n));
    } else {
        assert(cards.take(n) =~= cards);
    }
}

/// Sums up the cards of a product, where the sums can be told.
pub fn section_kpis(cards: &Vec<CreativeCard>) -> (r: Option<Kpis>)
    ensures
        match r {
            Some(k) => kpis_sum(k) == cards_sum(cards_view(cards@)) && k.unattributed_l_leads == 0,
            None => !kpis_fit(cards_sum(cards_view(cards@))),
        },
{
    let ghost all = cards_view(cards@);
    let mut k = zero_kpis(0);
    let mut i: usize = 0;
    assert(all.take(0) =~= Seq::empty());
    while i < cards.len()
        invariant
            i <= cards@.len(),
            all == cards_view(cards@),
            kpis_sum(k) == cards_sum(all.take(i as int)),
            k.unattributed_l_leads == 0,
        decreases cards.len() - i,
    {
        assert(all.take(i + 1).drop_last() =~= all.take(i as int));
        assert(all[i as int] == cards@[i as int]@);
        match add_kpis(k, kpis_of_card(&cards[i])) {
            Some(next) => {
                k = next;
            },
            None => {
                proof {
                    if kpis_fit(cards_sum(all)) {
                        lemma_cards_sum_grows(all, i + 1);
                    }
                }
                return None;
            },
        }
        i += 1;
    }
    assert(all.take(i as int) =~= all);
    Some(k)
}

proof fn lemma_all_sum_grows(v: Seq<Kpis>, n: int)
    requires
        0 <= n <= v.len(),
        kpis_fit(all_sum(v)),
    ensures
        kpis_fit(all_sum(v.take(n))),
    decreases v.len() - n,
{
    if n < v.len() {
        lemma_all_sum_grows(v, n + 1);
        assert(v.take(n + 1).drop_last() =~= v.take(n));
    } else {
        assert(v.take(n) =~= v);
    }
}

/// Sums up the products, where the sums can be told.
pub fn portfolio_kpis(sections: &Vec<Kpis>, unattributed: u64) -> (r: Option<Kpis>)
    ensures
        match r {
            Some(k) => kpis_sum(k) == all_sum(sections@) && k.unattributed_l_leads == unattributed,
            None => !kpis_fit(all_sum(sections@)),
        },
{
    let mut k = zero_kpis(unattributed);
    let mut i: usize = 0;
    assert(sections@.take(0) =~= Seq::empty());
    while i < sections.len()
        invariant
            i <= sections@.len(),
            kpis_sum(k) == all_sum(sections@.take(i as int)),
            k.unattributed_l_leads == unattributed,
        decreases sections.len() - i,
    {
        assert(sections@.take(i + 1).drop_last() =~= sections@.take(i as int));
        match add_kpis(k, sections[i]) {
            Some(next) => {
                k = next;
            },
            None => {
                proof {
                    if kpis_fit(all_sum(sections@)) {
                        lemma_all_sum_grows(sections@, i + 1);
                    }
                }
                return None;
            },
        }
        i += 1;
    }
    assert(sections@.take(i as int) =~= sections@);
    Some(k)
}

/// The sums of the products are the sums of all their cards, whatever the products are.
pub proof fn law_portfolio_is_all_cards(groups: Seq<Seq<CardV>>, v: Seq<Kpis>)
    requires
        groups.len() == v.len(),
        forall|i: int| 0 <= i < v.len() ==> kpis_sum(#[trigger] v[i]) == cards_sum(groups[i]),
    ensures
        all_sum(v) == cards_sum(groups.flatten()),
    decreases v.len(),
{
    if v.len() == 0 {
        assert(groups.flatten() =~= Seq::empty());
    } else {
        let gs = groups.drop_last();
        law_portfolio_is_all_cards(gs, v.drop_last());
        assert(groups =~= gs.push(groups.last()));
        gs.lemma_flatten_push(groups.last());
        lemma_cards_sum_adds(gs.flatten(), groups.last());
        assert(v[v.len() - 1] == v.last());
    }
}

proof fn lemma_cards_sum_adds(a: Seq<CardV>, b: Seq<CardV>)
    ensures
        cards_sum(a + b) == kpis_plus(cards_sum(a), cards_sum(b)),
    decreases b.len(),
{
    if b.len() == 0 {
        assert(a + b =~= a);
    } else {
        lemma_cards_sum_adds(a, b.drop_last());
        assert((a + b).drop_last() =~= a + b.drop_last());
    }
}

// The summary

/// The counts of the steps of a funnel from the leads on.
pub open spec fn depth_of(funnel: Seq<(Seq<char>, nat)>) -> Seq<char> {
    joined(
        if funnel.len() <= 2 {
            Seq::empty()
        } else {
            funnel.skip(2).map_values(|s: (Seq<char>, nat)| dec(s.1))
        },
        "/"@,
    )
}

fn depth(funnel: &Vec<FunnelStage>) -> (r: String)
    ensures
        r@ == depth_of(stages_view(funnel@)),
{
    let ghost all = stages_view(funnel@);
    let ghost want = if all.len() <= 2 {
        Seq::empty()
    } else {
        all.skip(2).map_values(|s: (Seq<char>, nat)| dec(s.1))
    };
    let mut out: Vec<String> = Vec::new();
    let mut i: usize = 2;
    assert(views(out@) =~= want.take(0));
    assert(all.len() == funnel@.len());
    while i < funnel.len()
        invariant
            2 <= i,
            funnel@.len() >= 2 ==> i <= funnel@.len(),
            all == stages_view(funnel@),
            all.len() == funnel@.len(),
            want == (if all.len() <= 2 {
                Seq::empty()
            } else {
                all.skip(2).map_values(|s: (Seq<char>, nat)| dec(s.1))
            }),
            funnel@.len() > 2 ==> views(out@) == want.take(i - 2),
            funnel@.len() <= 2 ==> views(out@) == want,
        decreases funnel.len() - i,
    {
        assert(all[i as int] == (funnel@[i as int].stage@, funnel@[i as int].count as nat));
        assert(all.skip(2)[i - 2] == all[i as int]);
        assert(want.take(i - 1) =~= want.take(i - 2).push(want[i - 2]));
        push_text(&mut out, decimal(funnel[i].count));
        i += 1;
    }
    assert(views(out@) =~= want);
    join(&out, "/")
}

pub open spec fn text_at(v: Seq<Seq<char>>, i: int) -> Seq<char> {
    if 0 <= i < v.len() {
        v[i]
    } else {
        Seq::empty()
    }
}

fn text_in<'a>(v: &'a Vec<String>, i: usize) -> (r: &'a str)
    ensures
        r@ == text_at(views(v@), i as int),
{
    if i < v.len() {
        v[i].as_str()
    } else {
        proof {
            reveal_strlit("");
        }
        assert(""@ =~= Seq::empty());
        ""
    }
}

pub open spec fn card_line(c: CardV, spend: Seq<char>) -> Seq<char> {
    filled(
        "  [{}] {}  spend Rs.{}  M/L/Q/V/B {}  {}"@,
        seq![
            c.status.label,
            c.display_name,
            spend,
            depth_of(c.funnel),
            if c.image is Some {
                ""@
            } else {
                "(no image)"@
            },
        ],
    )
}

/// The lines of the first `n` cards.
pub open spec fn card_lines(cards: Seq<CardV>, spends: Seq<Seq<char>>, n: int) -> Seq<Seq<char>> {
    Seq::new(
        if n < 0 {
            0
        } else {
            n as nat
        },
        |i: int| card_line(cards[i], text_at(spends, i)),
    )
}

pub open spec fn section_lines(s: SectionV, spends: Seq<Seq<char>>) -> Seq<Seq<char>> {
    let n = s.creatives.len();
    seq![""@, filled("{} - {} creative(s)"@, seq![s.product, dec(n)])] + card_lines(
        s.creatives,
        spends,
        if n < 3 {
            n as int
        } else {
            3
        },
    ) + (if n > 3 {
        seq![filled("  ... +{} more"@, seq![dec((n - 3) as nat)])]
    } else {
        Seq::empty()
    })
}

/// Lists of texts as they are; nothing where there is no such list.
pub open spec fn list_at(v: Seq<Vec<String>>, i: int) -> Seq<Seq<char>> {
    if 0 <= i < v.len() {
        views(v[i]@)
    } else {
        Seq::empty()
    }
}

/// The lines of the first `n` products.
pub open spec fn sections_lines(
    products: Seq<SectionV>,
    spends: Seq<Vec<String>>,
    n: nat,
) -> Seq<Seq<char>>
    decreases n,
{
    if n == 0 {
        Seq::empty()
    } else {
        sections_lines(products, spends, (n - 1) as nat) + section_lines(
            products[n - 1],
            list_at(spends, n - 1),
        )
    }
}

/// The summary of a report; the amounts spent are given as they are shown.
pub open spec fn summary_of(
    r: ReportV,
    k: Kpis,
    spend: Seq<char>,
    spends: Seq<Vec<String>>,
) -> Seq<char> {
    text_lines(
        seq![
            filled(
                "CREATIVE REPORT  {}  (window {}..{})"@,
                seq![r.report_date, r.since, r.until],
            ),
            filled(
                "portfolio: spend Rs.{}  impr {}  clicks {}  M {}  L {}  Q {}  V {}  B {}{}"@,
                seq![
                    spend,
                    dec(k.impressions as nat),
                    dec(k.clicks as nat),
                    dec(k.funnel.m_leads as nat),
                    dec(k.funnel.l_leads as nat),
                    dec(k.funnel.qualified as nat),
                    dec(k.funnel.visit as nat),
                    dec(k.funnel.booking as nat),
                    if k.unattributed_l_leads > 0 {
                        filled(
                            "  (+{} unattributed L)"@,
                            seq![dec(k.unattributed_l_leads as nat)],
                        )
                    } else {
                        ""@
                    },
                ],
            ),
        ] + sections_lines(r.products, spends, r.products.len()),
    )
}

fn push_section(out: &mut Vec<String>, s: &ProductSection, spends: &Vec<String>)
    ensures
        views(final(out)@) == views(old(out)@) + section_lines(s@, views(spends@)),
{
    let ghost given = views(out@);
    let ghost cards = s@.creatives;
    let total: usize = s.creatives.len();
    let n: usize = if total < 3 {
        total
    } else {
        3
    };
    assert(cards.len() == total);
    push_text(out, "".to_owned());
    let count_text = decimal_len(total);
    push_text(out, fill("{} - {} creative(s)", &vec![s.product.as_str(), count_text.as_str()]));
    let ghost head = given.push(""@).push(
        filled("{} - {} creative(s)"@, seq![s@.product, dec(total as nat)]),
    );
    let ghost want = card_lines(cards, views(spends@), n as int);
    let mut i: usize = 0;
    assert(views(out@) =~= head + want.take(0));
    while i < n
        invariant
            i <= n <= s.creatives@.len(),
            cards == cards_view(s.creatives@),
            want == card_lines(cards, views(spends@), n as int),
            views(out@) == head + want.take(i as int),
        decreases n - i,
    {
        let c = &s.creatives[i];
        assert(cards[i as int] == c@);
        let d = depth(&c.funnel);
        let note = if c.image.is_some() {
            ""
        } else {
            "(no image)"
        };
        let line = fill(
            "  [{}] {}  spend Rs.{}  M/L/Q/V/B {}  {}",
            &vec![
                c.status.label.as_str(),
                c.display_name.as_str(),
                text_in(spends, i),
                d.as_str(),
                note,
            ],
        );
        assert(line@ == want[i as int]);
        assert(head + want.take(i + 1) =~= (head + want.take(i as int)).push(want[i as int]));
        push_text(out, line);
        i += 1;
    }
    assert(want.take(n as int) =~= want);
    if total > 3 {
        let more = decimal_len(total - 3);
        push_text(out, fill("  ... +{} more", &vec![more.as_str()]));
    }
    assert(views(out@) =~= given + section_lines(s@, views(spends@)));
}

/// Sums a report up as a text.
pub fn text_summary(
    r: &CreativeReport,
    k: &Kpis,
    spend: &str,
    spends: &Vec<Vec<String>>,
) -> (t: String)
    ensures
        t@ == summary_of(r@, *k, spend@, spends@),
{
    let f = &k.funnel;
    let mut out: Vec<String> = Vec::new();
    push_text(
        &mut out,
        fill(
            "CREATIVE REPORT  {}  (window {}..{})",
            &vec![r.report_date.as_str(), r.window.since.as_str(), r.window.until.as_str()],
        ),
    );
    let others = decimal(k.unattributed_l_leads);
    let note = if k.unattributed_l_leads > 0 {
        fill("  (+{} unattributed L)", &vec![others.as_str()])
    } else {
        "".to_owned()
    };
    let (a, b, c, d) = (
        decimal(k.impressions),
        decimal(k.clicks),
        decimal(f.m_leads),
        decimal(f.l_leads),
    );
    let (q, v, w) = (decimal(f.qualified), decimal(f.visit), decimal(f.booking));
    push_text(
        &mut out,
        fill(
            "portfolio: spend Rs.{}  impr {}  clicks {}  M {}  L {}  Q {}  V {}  B {}{}",
            &vec![
                spend,
                a.as_str(),
                b.as_str(),
                c.as_str(),
                d.as_str(),
                q.as_str(),
                v.as_str(),
                w.as_str(),
                note.as_str(),
            ],
        ),
    );
    let ghost head = views(out@);
    let none: Vec<String> = Vec::new();
    assert(views(none@) =~= Seq::empty());
    let mut i: usize = 0;
    assert(head + sections_lines(r@.products, spends@, 0) =~= head);
    while i < r.products.len()
        invariant
            i <= r.products@.len(),
            views(none@) == Seq::<Seq<char>>::empty(),
            views(out@) == head + sections_lines(r@.products, spends@, i as nat),
        decreases r.products.len() - i,
    {
        assert(r@.products[i as int] == r.products@[i as int]@);
        let list = if i < spends.len() {
            &spends[i]
        } else {
            &none
        };
        let ghost before = sections_lines(r@.products, spends@, i as nat);
        push_section(&mut out, &r.products[i], list);
        assert(views(list@) =~= list_at(spends@, i as int));
        assert((i + 1) as nat - 1 == i as nat);
        assert(views(out@) =~= head + sections_lines(r@.products, spends@, (i + 1) as nat));
        i += 1;
    }
    assert(r@.products.len() == r.products@.len());
    assert(views(out@) =~= seq![
        filled("CREATIVE REPORT  {}  (window {}..{})"@, seq![r@.report_date, r@.since, r@.until]),
        head[1],
    ] + sections_lines(r@.products, spends@, r@.products.len()));
    end_lines(&out)
}

} // verus!
