//! The parts of the page around the products: the brief, the banner of missing leads, the sums with
//! their changes, where the leads went, the products at a glance, and the targetings of a product.

use crate::brief::print::grouped;
use crate::report::card::CardV;
use crate::report::html::{cost, cost_of, rate, rate_of, rupees, rupees_of};
use crate::report::markup::{commas, esc, esc_of, fill, filled, slug, slug_of};
use crate::report::table::{dim, dim_of, is_sorted_out};
use crate::report::{sections_view, SectionV};
use crate::schema::{
    exec_view, ExecLine, ExecLineV, FunnelCounts, Kpis, ProductSection, Segmentation,
    TargetingSpecs, Verdict,
};
use crate::strs::{
    cat2, cat3, cat4, cat5, dec, decimal, decimal_wide, join, joined, push_text, rtrim, same,
    trim_end, views,
};
use vstd::prelude::*;

pub mod laws;

verus! {

// The brief

pub open spec fn exec_item(l: ExecLineV) -> Seq<char> {
    let (class, tagc, tag) = if l.tone == "win"@ {
        ("win"@, "tagw"@, "Win"@)
    } else if l.tone == "watch"@ {
        ("con"@, "tagc"@, "Watch"@)
    } else {
        (""@, "tagi"@, "Note"@)
    };
    filled(
        "<li class=\"{}\"><span class=\"{}\">{}</span>{}</li>"@,
        seq![class, tagc, tag, esc_of(l.text)],
    )
}

pub open spec fn exec_items(lines: Seq<ExecLineV>, n: nat) -> Seq<char>
    decreases n,
{
    if n == 0 {
        Seq::empty()
    } else {
        exec_items(lines, (n - 1) as nat) + exec_item(lines[n - 1])
    }
}

/// The panel of the brief; there is none without lines.
pub open spec fn exec_html(lines: Seq<ExecLineV>) -> Seq<char> {
    if lines.len() == 0 {
        ""@
    } else {
        "<div class=\"pblock\" id=\"brief\"><section><div class=\"seckick\">Yesterday in brief</div><div class=\"insight exec\"><ul>"@
            + exec_items(lines, lines.len()) + "</ul></div></section></div>"@
    }
}

pub fn exec_brief(lines: &Vec<ExecLine>) -> (r: String)
    ensures
        r@ == exec_html(exec_view(lines@)),
{
    let ghost all = exec_view(lines@);
    assert(all.len() == lines@.len());
    if lines.len() == 0 {
        return "".to_owned();
    }
    let mut out =
        "<div class=\"pblock\" id=\"brief\"><section><div class=\"seckick\">Yesterday in brief</div><div class=\"insight exec\"><ul>".to_owned();
    let ghost head = out@;
    let mut i: usize = 0;
    assert(head + exec_items(all, 0) =~= head);
    while i < lines.len()
        invariant
            i <= lines@.len(),
            all == exec_view(lines@),
            out@ == head + exec_items(all, i as nat),
        decreases lines.len() - i,
    {
        let l = &lines[i];
        assert(all[i as int] == l@);
        let (class, tagc, tag) = if same(l.tone.as_str(), "win") {
            ("win", "tagw", "Win")
        } else if same(l.tone.as_str(), "watch") {
            ("con", "tagc", "Watch")
        } else {
            ("", "tagi", "Note")
        };
        let text = esc(l.text.as_str());
        let item = fill(
            "<li class=\"{}\"><span class=\"{}\">{}</span>{}</li>",
            &vec![class, tagc, tag, text.as_str()],
        );
        out.append(item.as_str());
        assert((i + 1) as nat - 1 == i as nat);
        assert(out@ =~= head + exec_items(all, (i + 1) as nat));
        i += 1;
    }
    out.append("</ul></div></section></div>");
    out
}

// Leads by what became of them

#[verifier::ext_equal]
pub struct SegSum {
    pub reinquiry: nat,
    pub duplicate: nat,
    pub invalid: nat,
    pub uncaptured: nat,
}

pub open spec fn no_seg() -> SegSum {
    SegSum { reinquiry: 0, duplicate: 0, invalid: 0, uncaptured: 0 }
}

pub open spec fn seg_plus(a: SegSum, s: Option<Segmentation>) -> SegSum {
    match s {
        Some(s) => SegSum {
            reinquiry: a.reinquiry + s.reinquiry as nat,
            duplicate: a.duplicate + s.duplicate as nat,
            invalid: a.invalid + s.invalid as nat,
            uncaptured: a.uncaptured + s.uncaptured as nat,
        },
        None => a,
    }
}

/// The leads of cards by what became of them.
pub open spec fn seg_sum(cards: Seq<CardV>) -> SegSum
    decreases cards.len(),
{
    if cards.len() == 0 {
        no_seg()
    } else {
        seg_plus(seg_sum(cards.drop_last()), cards.last().segmentation)
    }
}

struct Counted {
    reinquiry: u128,
    duplicate: u128,
    invalid: u128,
    uncaptured: u128,
}

spec fn counted(c: Counted) -> SegSum {
    SegSum {
        reinquiry: c.reinquiry as nat,
        duplicate: c.duplicate as nat,
        invalid: c.invalid as nat,
        uncaptured: c.uncaptured as nat,
    }
}

spec fn seg_below(s: SegSum, n: nat) -> bool {
    &&& s.reinquiry <= n * 0xffff_ffff_ffff_ffff
    &&& s.duplicate <= n * 0xffff_ffff_ffff_ffff
    &&& s.invalid <= n * 0xffff_ffff_ffff_ffff
    &&& s.uncaptured <= n * 0xffff_ffff_ffff_ffff
}

proof fn lemma_seg_below(cards: Seq<CardV>)
    ensures
        seg_below(seg_sum(cards), cards.len()),
    decreases cards.len(),
{
    if cards.len() > 0 {
        lemma_seg_below(cards.drop_last());
    }
}

fn count_seg(p: &ProductSection) -> (r: Counted)
    ensures
        counted(r) == seg_sum(p@.creatives),
{
    let ghost all = p@.creatives;
    let mut r = Counted { reinquiry: 0, duplicate: 0, invalid: 0, uncaptured: 0 };
    let mut i: usize = 0;
    assert(all.take(0) =~= Seq::empty());
    assert(all.len() == p.creatives@.len());
    while i < p.creatives.len()
        invariant
            i <= p.creatives@.len(),
            all == p@.creatives,
            all.len() == p.creatives@.len(),
            counted(r) == seg_sum(all.take(i as int)),
        decreases p.creatives.len() - i,
    {
        assert(all.take(i + 1).drop_last() =~= all.take(i as int));
        assert(all[i as int] == p.creatives@[i as int]@);
        proof {
            lemma_seg_below(all.take(i as int));
        }
        if let Some(s) = &p.creatives[i].segmentation {
            r = Counted {
                reinquiry: r.reinquiry + s.reinquiry as u128,
                duplicate: r.duplicate + s.duplicate as u128,
                invalid: r.invalid + s.invalid as u128,
                uncaptured: r.uncaptured + s.uncaptured as u128,
            };
        }
        i += 1;
    }
    assert(all.take(i as int) =~= all);
    r
}

// The banner

/// The names of the cards with missing leads.
pub open spec fn missing_names(cards: Seq<CardV>) -> Seq<Seq<char>>
    decreases cards.len(),
{
    if cards.len() == 0 {
        Seq::empty()
    } else {
        let before = missing_names(cards.drop_last());
        match cards.last().segmentation {
            Some(s) => if s.uncaptured > 0 {
                before.push(cards.last().display_name)
            } else {
                before
            },
            None => before,
        }
    }
}

/// Where leads are missing, product by product.
pub open spec fn missing_parts(products: Seq<SectionV>) -> Seq<Seq<char>>
    decreases products.len(),
{
    if products.len() == 0 {
        Seq::empty()
    } else {
        let before = missing_parts(products.drop_last());
        let p = products.last();
        let n = seg_sum(p.creatives).uncaptured;
        if n > 0 {
            before.push(
                filled(
                    "{}: {} ({})"@,
                    seq![p.product, dec(n), joined(missing_names(p.creatives), ", "@)],
                ),
            )
        } else {
            before
        }
    }
}

pub open spec fn missing_total(products: Seq<SectionV>) -> nat
    decreases products.len(),
{
    if products.len() == 0 {
        0
    } else {
        missing_total(products.drop_last()) + seg_sum(products.last().creatives).uncaptured
    }
}

/// The banner of missing leads; there is none where none is missing.
pub open spec fn banner_of(products: Seq<SectionV>, until: Seq<char>) -> Seq<char> {
    if missing_total(products) == 0 {
        ""@
    } else {
        filled(
            "<div class=\"missing\"><b>{} lead(s) are missing from your CRM</b><p>They submitted your ad form on {} but never arrived in the CRM. They are paid for and still warm - a same-day call recovers them.</p><div class=\"mwhere\">{}</div></div>"@,
            seq![
                dec(missing_total(products)),
                esc_of(until),
                esc_of(joined(missing_parts(products), " &middot; "@)),
            ],
        )
    }
}

fn list_missing(p: &ProductSection) -> (r: Vec<String>)
    ensures
        views(r@) == missing_names(p@.creatives),
{
    let ghost all = p@.creatives;
    let mut out: Vec<String> = Vec::new();
    let mut i: usize = 0;
    assert(views(out@) =~= Seq::empty());
    assert(all.take(0) =~= Seq::empty());
    assert(all.len() == p.creatives@.len());
    while i < p.creatives.len()
        invariant
            i <= p.creatives@.len(),
            all == p@.creatives,
            all.len() == p.creatives@.len(),
            views(out@) == missing_names(all.take(i as int)),
        decreases p.creatives.len() - i,
    {
        assert(all.take(i + 1).drop_last() =~= all.take(i as int));
        assert(all[i as int] == p.creatives@[i as int]@);
        if let Some(s) = &p.creatives[i].segmentation {
            if s.uncaptured > 0 {
                push_text(&mut out, p.creatives[i].display_name.clone());
            }
        }
        i += 1;
    }
    assert(all.take(i as int) =~= all);
    out
}

/// Makes the banner of missing leads.
pub fn missing_banner(products: &Vec<ProductSection>, until: &str) -> (r: String)
    requires
        missing_total(sections_view(products@)) <= u128::MAX,
    ensures
        r@ == banner_of(sections_view(products@), until@),
{
    let ghost all = sections_view(products@);
    let mut parts: Vec<String> = Vec::new();
    let mut total: u128 = 0;
    let mut i: usize = 0;
    assert(views(parts@) =~= Seq::empty());
    assert(all.take(0) =~= Seq::empty());
    assert(all.len() == products@.len());
    while i < products.len()
        invariant
            i <= products@.len(),
            all == sections_view(products@),
            all.len() == products@.len(),
            missing_total(all) <= u128::MAX,
            views(parts@) == missing_parts(all.take(i as int)),
            total == missing_total(all.take(i as int)),
        decreases products.len() - i,
    {
        let p = &products[i];
        assert(all.take(i + 1).drop_last() =~= all.take(i as int));
        assert(all[i as int] == p@);
        proof {
            lemma_missing_grows(all, i + 1);
        }
        let n: u128 = count_seg(p).uncaptured;
        if n > 0 {
            let (d, names) = (decimal_wide(n), join(&list_missing(p), ", "));
            let part = fill(
                "{}: {} ({})",
                &vec![p.product.as_str(), d.as_str(), names.as_str()],
            );
            push_text(&mut parts, part);
        }
        total = total + n;
        i += 1;
    }
    assert(all.take(i as int) =~= all);
    if total == 0 {
        return "".to_owned();
    }
    let (n, day) = (decimal_wide(total), esc(until));
    let places = esc(join(&parts, " &middot; ").as_str());
    fill(
        "<div class=\"missing\"><b>{} lead(s) are missing from your CRM</b><p>They submitted your ad form on {} but never arrived in the CRM. They are paid for and still warm - a same-day call recovers them.</p><div class=\"mwhere\">{}</div></div>",
        &vec![n.as_str(), day.as_str(), places.as_str()],
    )
}

proof fn lemma_missing_grows(products: Seq<SectionV>, n: int)
    requires
        0 <= n <= products.len(),
    ensures
        missing_total(products.take(n)) <= missing_total(products),
    decreases products.len() - n,
{
    if n < products.len() {
        lemma_missing_grows(products, n + 1);
        assert(products.take(n + 1).drop_last() =~= products.take(n));
    } else {
        assert(products.take(n) =~= products);
    }
}

// Changes

/// How a number changed since the report before: not at all, or by so much up or down.
#[derive(Debug, Clone, Copy, PartialEq, Eq, Structural)]
pub struct Delta {
    pub same: bool,
    pub up: bool,
    pub size: u64,
}

/// The change of a count.
pub open spec fn count_delta(now: u64, before: Option<u64>) -> Option<Delta> {
    match before {
        Some(b) => Some(
            Delta {
                same: now == b,
                up: now > b,
                size: (if now >= b {
                    now - b
                } else {
                    b - now
                }) as u64,
            },
        ),
        None => None,
    }
}

fn find_delta(now: u64, before: Option<u64>) -> (r: Option<Delta>)
    ensures
        r == count_delta(now, before),
{
    match before {
        Some(b) => Some(
            Delta {
                same: now == b,
                up: now > b,
                size: if now >= b {
                    now - b
                } else {
                    b - now
                },
            },
        ),
        None => None,
    }
}

/// A change as it is shown: as a good one or a bad one.
pub open spec fn delta_of(d: Option<Delta>, money: bool, up_is_good: bool) -> Seq<char> {
    match d {
        Some(d) => if d.same {
            "<div class=\"okd\">unchanged</div>"@
        } else {
            filled(
                "<div class=\"okd {}\">{}{} vs last</div>"@,
                seq![
                    if d.up == up_is_good {
                        "up"@
                    } else {
                        "down"@
                    },
                    if d.up {
                        "+"@
                    } else {
                        "-"@
                    },
                    if money {
                        "Rs "@ + grouped(dec(d.size as nat))
                    } else {
                        grouped(dec(d.size as nat))
                    },
                ],
            )
        },
        None => ""@,
    }
}

pub fn delta_cell(d: Option<Delta>, money: bool, up_is_good: bool) -> (r: String)
    ensures
        r@ == delta_of(d, money, up_is_good),
{
    match d {
        Some(d) => if d.same {
            "<div class=\"okd\">unchanged</div>".to_owned()
        } else {
            let class = if d.up == up_is_good {
                "up"
            } else {
                "down"
            };
            let sign = if d.up {
                "+"
            } else {
                "-"
            };
            let value = if money {
                cat2("Rs ", commas(d.size).as_str())
            } else {
                commas(d.size)
            };
            fill("<div class=\"okd {}\">{}{} vs last</div>", &vec![class, sign, value.as_str()])
        },
        None => "".to_owned(),
    }
}

// Sums

/// How the sums of all products are shown, with what changed.
#[derive(Debug)]
pub struct ScoreShown {
    pub spend: u64,
    pub spend_delta: Option<Delta>,
    /// What a qualified ticket costs.
    pub cpq: Option<u64>,
    pub cpq_delta: Option<Delta>,
    pub ctr: String,
    pub cpl: u64,
}

pub open spec fn tile_of(
    v: Seq<char>,
    label: Seq<char>,
    dot: Seq<char>,
    delta: Seq<char>,
) -> Seq<char> {
    filled(
        "<div class=\"ok\"><div class=\"okv tabnum\">{}</div><div class=\"okl\"><i class=\"kdot {}\"></i>{}</div>{}</div>"@,
        seq![v, dot, label, delta],
    )
}

fn tile(v: &str, label: &str, dot: &str, delta: &str) -> (r: String)
    ensures
        r@ == tile_of(v@, label@, dot@, delta@),
{
    fill(
        "<div class=\"ok\"><div class=\"okv tabnum\">{}</div><div class=\"okl\"><i class=\"kdot {}\"></i>{}</div>{}</div>",
        &vec![v, dot, label, delta],
    )
}

pub open spec fn opt_rupees(o: Option<u64>) -> Seq<char> {
    match o {
        Some(n) => rupees_of(n),
        None => "-"@,
    }
}

fn show_opt(o: Option<u64>) -> (r: String)
    ensures
        r@ == opt_rupees(o),
{
    match o {
        Some(n) => rupees(n),
        None => "-".to_owned(),
    }
}

pub open spec fn or_none(n: u64) -> Seq<char> {
    if n == 0 {
        "none"@
    } else {
        dec(n as nat)
    }
}

pub fn visits_label(n: u64) -> (r: String)
    ensures
        r@ == or_none(n),
{
    if n == 0 {
        "none".to_owned()
    } else {
        decimal(n)
    }
}

pub open spec fn m_before(prior: Option<FunnelCounts>) -> Option<u64> {
    match prior {
        Some(p) => Some(p.m_leads),
        None => None,
    }
}

pub open spec fn l_before(prior: Option<FunnelCounts>) -> Option<u64> {
    match prior {
        Some(p) => Some(p.l_leads),
        None => None,
    }
}

pub open spec fn q_before(prior: Option<FunnelCounts>) -> Option<u64> {
    match prior {
        Some(p) => Some(p.qualified),
        None => None,
    }
}

/// The tiles of the sums that matter most, each with its change.
pub open spec fn top_tiles(k: Kpis, f: ScoreShown, prior: Option<FunnelCounts>) -> Seq<char> {
    let n = k.funnel;
    tile_of(rupees_of(f.spend), "Spend"@, "m"@, delta_of(f.spend_delta, true, false)) + tile_of(
        dec(n.m_leads as nat),
        "Meta leads"@,
        "m"@,
        delta_of(count_delta(n.m_leads, m_before(prior)), false, true),
    ) + tile_of(
        dec(n.l_leads as nat),
        "CRM leads"@,
        "c"@,
        delta_of(count_delta(n.l_leads, l_before(prior)), false, true),
    ) + tile_of(
        dec(n.qualified as nat),
        "Qualified"@,
        "c"@,
        delta_of(count_delta(n.qualified, q_before(prior)), false, true),
    ) + tile_of(
        opt_rupees(f.cpq),
        "Cost / qualified"@,
        "c"@,
        delta_of(f.cpq_delta, true, false),
    )
}

/// The tiles of the other sums.
pub open spec fn low_tiles(k: Kpis, f: ScoreShown) -> Seq<char> {
    let n = k.funnel;
    tile_of(grouped(dec(k.impressions as nat)), "Impressions"@, "m"@, ""@) + tile_of(
        rate_of(k.impressions as nat, f.ctr@),
        "CTR"@,
        "m"@,
        ""@,
    ) + tile_of(cost_of(n.m_leads as nat, f.cpl), "Cost / Meta lead"@, "m"@, ""@) + tile_of(
        or_none(n.visit),
        "Visits"@,
        "c"@,
        ""@,
    ) + tile_of(or_none(n.booking), "Bookings"@, "c"@, ""@)
}

/// Makes the tiles of the sums of all products.
pub fn scorecard(k: &Kpis, f: &ScoreShown, prior: &Option<FunnelCounts>) -> (r: (String, String))
    ensures
        r.0@ == top_tiles(*k, *f, *prior),
        r.1@ == low_tiles(*k, *f),
{
    let n = &k.funnel;
    let (m0, l0, q0): (Option<u64>, Option<u64>, Option<u64>) = match prior {
        Some(p) => (Some(p.m_leads), Some(p.l_leads), Some(p.qualified)),
        None => (None, None, None),
    };
    let d1 = delta_cell(f.spend_delta, true, false);
    let d2 = delta_cell(find_delta(n.m_leads, m0), false, true);
    let d3 = delta_cell(find_delta(n.l_leads, l0), false, true);
    let d4 = delta_cell(find_delta(n.qualified, q0), false, true);
    let d5 = delta_cell(f.cpq_delta, true, false);
    let top = cat5(
        tile(rupees(f.spend).as_str(), "Spend", "m", d1.as_str()).as_str(),
        tile(decimal(n.m_leads).as_str(), "Meta leads", "m", d2.as_str()).as_str(),
        tile(decimal(n.l_leads).as_str(), "CRM leads", "c", d3.as_str()).as_str(),
        tile(decimal(n.qualified).as_str(), "Qualified", "c", d4.as_str()).as_str(),
        tile(show_opt(f.cpq).as_str(), "Cost / qualified", "c", d5.as_str()).as_str(),
    );
    let low = cat5(
        tile(commas(k.impressions).as_str(), "Impressions", "m", "").as_str(),
        tile(rate(k.impressions, f.ctr.as_str()).as_str(), "CTR", "m", "").as_str(),
        tile(cost(n.m_leads, f.cpl).as_str(), "Cost / Meta lead", "m", "").as_str(),
        tile(visits_label(n.visit).as_str(), "Visits", "c", "").as_str(),
        tile(visits_label(n.booking).as_str(), "Bookings", "c", "").as_str(),
    );
    (top, low)
}

// Where the leads went

/// The cards of all products.
pub open spec fn all_cards(products: Seq<SectionV>) -> Seq<CardV>
    decreases products.len(),
{
    if products.len() == 0 {
        Seq::empty()
    } else {
        all_cards(products.drop_last()) + products.last().creatives
    }
}

pub open spec fn part_if(n: nat, template: Seq<char>) -> Seq<Seq<char>> {
    if n > 0 {
        seq![filled(template, seq![dec(n)])]
    } else {
        Seq::empty()
    }
}

/// How the gap between the leads of the ads and those in the CRM is explained.
pub open spec fn gap_parts(s: SegSum) -> Seq<Seq<char>> {
    part_if(s.reinquiry, "{} already in your CRM"@) + part_if(
        s.duplicate,
        "{} repeat form-fills"@,
    ) + part_if(s.invalid, "{} invalid numbers"@) + part_if(
        s.uncaptured,
        "{} never arrived (see banner)"@,
    )
}

pub open spec fn explained(s: SegSum) -> nat {
    s.reinquiry + s.duplicate + s.invalid + s.uncaptured
}

pub open spec fn gap_text(gap: nat, s: SegSum) -> Seq<char> {
    filled(" Of the gap of {}: {}."@, seq![dec(gap), joined(gap_parts(s), ", "@)]) + (if explained(
        s,
    ) != gap {
        filled(
            " {} lead(s) are still syncing and not yet classified."@,
            seq![
                dec(
                    if gap > explained(s) {
                        (gap - explained(s)) as nat
                    } else {
                        (explained(s) - gap) as nat
                    },
                ),
            ],
        )
    } else {
        Seq::empty()
    })
}

/// Where the leads of the ads went: the kinds add up to the gap, or it is said that they do not.
pub open spec fn trail_text(k: Kpis, s: SegSum) -> Seq<char> {
    let n = k.funnel;
    filled(
        "The trail: {} Meta leads -> {} arrived in CRM -> {} qualified."@,
        seq![dec(n.m_leads as nat), dec(n.l_leads as nat), dec(n.qualified as nat)],
    ) + (if n.m_leads > n.l_leads {
        gap_text((n.m_leads - n.l_leads) as nat, s)
    } else {
        Seq::empty()
    }) + (if k.unattributed_l_leads > 0 {
        filled(
            " Separately, {} CRM lead(s) came from outside these ads (portals, walk-ins, organic)."@,
            seq![dec(k.unattributed_l_leads as nat)],
        )
    } else {
        Seq::empty()
    })
}

/// The sentence on where the leads went; there is none where they were not sorted out.
pub open spec fn reconciliation_of(k: Kpis, products: Seq<SectionV>) -> Seq<char> {
    if is_sorted_out(all_cards(products)) {
        "<p class=\"recon\">"@ + esc_of(trail_text(k, seg_sum(all_cards(products)))) + "</p>"@
    } else {
        ""@
    }
}

pub proof fn lemma_seg_sum_adds(a: Seq<CardV>, b: Seq<CardV>)
    ensures
        seg_sum(a + b) == (SegSum {
            reinquiry: seg_sum(a).reinquiry + seg_sum(b).reinquiry,
            duplicate: seg_sum(a).duplicate + seg_sum(b).duplicate,
            invalid: seg_sum(a).invalid + seg_sum(b).invalid,
            uncaptured: seg_sum(a).uncaptured + seg_sum(b).uncaptured,
        }),
    decreases b.len(),
{
    if b.len() == 0 {
        assert(a + b =~= a);
    } else {
        lemma_seg_sum_adds(a, b.drop_last());
        assert((a + b).drop_last() =~= a + b.drop_last());
    }
}

fn has_segmentation(p: &ProductSection) -> (r: bool)
    ensures
        r == is_sorted_out(p@.creatives),
{
    let ghost all = p@.creatives;
    assert(all.len() == p.creatives@.len());
    let mut i: usize = 0;
    while i < p.creatives.len()
        invariant
            i <= p.creatives@.len(),
            all == p@.creatives,
            all.len() == p.creatives@.len(),
            forall|j: int| 0 <= j < i ==> (#[trigger] all[j]).segmentation is None,
        decreases p.creatives.len() - i,
    {
        assert(all[i as int] == p.creatives@[i as int]@);
        if p.creatives[i].segmentation.is_some() {
            assert(all[i as int].segmentation is Some);
            return true;
        }
        i += 1;
    }
    false
}

fn push_part(out: &mut Vec<String>, n: u128, template: &str)
    ensures
        views(final(out)@) == views(old(out)@) + part_if(n as nat, template@),
{
    let ghost given = views(out@);
    if n > 0 {
        let d = decimal_wide(n);
        push_text(out, fill(template, &vec![d.as_str()]));
        assert(views(out@) =~= given + part_if(n as nat, template@));
    } else {
        assert(given + Seq::empty() =~= given);
    }
}

fn show_gap(gap: u64, s: &Counted) -> (r: String)
    requires
        explained(counted(*s)) <= u128::MAX,
    ensures
        r@ == gap_text(gap as nat, counted(*s)),
{
    let mut parts: Vec<String> = Vec::new();
    assert(views(parts@) =~= Seq::empty());
    push_part(&mut parts, s.reinquiry, "{} already in your CRM");
    push_part(&mut parts, s.duplicate, "{} repeat form-fills");
    push_part(&mut parts, s.invalid, "{} invalid numbers");
    push_part(&mut parts, s.uncaptured, "{} never arrived (see banner)");
    assert(views(parts@) =~= gap_parts(counted(*s)));
    let (g, list) = (decimal(gap), join(&parts, ", "));
    let mut out = fill(" Of the gap of {}: {}.", &vec![g.as_str(), list.as_str()]);
    let all: u128 = s.reinquiry + s.duplicate + s.invalid + s.uncaptured;
    if all != gap as u128 {
        let rest: u128 = if gap as u128 > all {
            gap as u128 - all
        } else {
            all - gap as u128
        };
        let d = decimal_wide(rest);
        out.append(
            fill(
                " {} lead(s) are still syncing and not yet classified.",
                &vec![d.as_str()],
            ).as_str(),
        );
    }
    assert(out@ =~= gap_text(gap as nat, counted(*s)));
    out
}

/// Says where the leads of the ads went.
pub fn reconciliation(k: &Kpis, products: &Vec<ProductSection>) -> (r: String)
    requires
        explained(seg_sum(all_cards(sections_view(products@)))) <= u128::MAX,
    ensures
        r@ == reconciliation_of(*k, sections_view(products@)),
{
    let ghost all = sections_view(products@);
    let mut s = Counted { reinquiry: 0, duplicate: 0, invalid: 0, uncaptured: 0 };
    let mut sorted = false;
    let mut i: usize = 0;
    assert(all.take(0) =~= Seq::empty());
    assert(all.len() == products@.len());
    while i < products.len()
        invariant
            i <= products@.len(),
            all == sections_view(products@),
            all.len() == products@.len(),
            explained(seg_sum(all_cards(all))) <= u128::MAX,
            counted(s) == seg_sum(all_cards(all.take(i as int))),
            sorted == is_sorted_out(all_cards(all.take(i as int))),
        decreases products.len() - i,
    {
        let p = &products[i];
        let ghost before = all_cards(all.take(i as int));
        let ghost now = all_cards(all.take(i + 1));
        assert(all.take(i + 1).drop_last() =~= all.take(i as int));
        assert(all[i as int] == p@);
        assert(now =~= before + p@.creatives);
        proof {
            lemma_seg_sum_adds(before, p@.creatives);
            lemma_explained_grows(all, i + 1);
        }
        let c = count_seg(p);
        if has_segmentation(p) {
            proof {
                let j = choose|j: int|
                    0 <= j < p@.creatives.len() && (#[trigger] p@.creatives[j]).segmentation is Some;
                assert(now[before.len() + j].segmentation is Some);
            }
            sorted = true;
        } else {
            assert(is_sorted_out(now) == is_sorted_out(before)) by {
                if is_sorted_out(before) {
                    let j = choose|j: int|
                        0 <= j < before.len() && (#[trigger] before[j]).segmentation is Some;
                    assert(now[j].segmentation is Some);
                }
                if is_sorted_out(now) {
                    let j = choose|j: int|
                        0 <= j < now.len() && (#[trigger] now[j]).segmentation is Some;
                    if j < before.len() {
                        assert(before[j].segmentation is Some);
                    } else {
                        assert(p@.creatives[j - before.len()].segmentation is Some);
                    }
                }
            }
        }
        s = Counted {
            reinquiry: s.reinquiry + c.reinquiry,
            duplicate: s.duplicate + c.duplicate,
            invalid: s.invalid + c.invalid,
            uncaptured: s.uncaptured + c.uncaptured,
        };
        i += 1;
    }
    assert(all.take(i as int) =~= all);
    if !sorted {
        return "".to_owned();
    }
    let n = &k.funnel;
    let (m, l, q) = (decimal(n.m_leads), decimal(n.l_leads), decimal(n.qualified));
    let mut text = fill(
        "The trail: {} Meta leads -> {} arrived in CRM -> {} qualified.",
        &vec![m.as_str(), l.as_str(), q.as_str()],
    );
    if n.m_leads > n.l_leads {
        text.append(show_gap(n.m_leads - n.l_leads, &s).as_str());
    }
    if k.unattributed_l_leads > 0 {
        let others = decimal(k.unattributed_l_leads);
        text.append(
            fill(
                " Separately, {} CRM lead(s) came from outside these ads (portals, walk-ins, organic).",
                &vec![others.as_str()],
            ).as_str(),
        );
    }
    assert(text@ =~= trail_text(*k, counted(s)));
    cat3("<p class=\"recon\">", esc(text.as_str()).as_str(), "</p>")
}

proof fn lemma_explained_grows(products: Seq<SectionV>, n: int)
    requires
        0 <= n <= products.len(),
    ensures
        explained(seg_sum(all_cards(products.take(n)))) <= explained(seg_sum(all_cards(products))),
    decreases products.len() - n,
{
    if n < products.len() {
        lemma_explained_grows(products, n + 1);
        assert(products.take(n + 1).drop_last() =~= products.take(n));
        lemma_seg_sum_adds(all_cards(products.take(n)), products[n].creatives);
        assert(products.take(n + 1).last() == products[n]);
    } else {
        assert(products.take(n) =~= products);
    }
}

// Products at a glance

/// How a product is shown at a glance.
#[derive(Debug)]
pub struct GlanceShown {
    pub kpis: Kpis,
    pub spend: u64,
    pub cpq: Option<u64>,
}

pub open spec fn glance_row(p: SectionV, f: GlanceShown) -> Seq<char> {
    let miss = seg_sum(p.creatives).uncaptured;
    filled(
        "<tr><td class=\"nm\"><a href=\"#p-{}\">{}</a></td><td>{}</td><td>{}</td><td>{}</td><td>{}</td><td{}>{}</td></tr>"@,
        seq![
            slug_of(p.product),
            esc_of(p.product),
            rupees_of(f.spend),
            dec(f.kpis.funnel.l_leads as nat),
            dec(f.kpis.funnel.qualified as nat),
            opt_rupees(f.cpq),
            if miss > 0 {
                " class=\"red\""@
            } else {
                " class=\"dim\""@
            },
            dec(miss),
        ],
    )
}

pub open spec fn glance_rows(products: Seq<SectionV>, shown: Seq<GlanceShown>, n: nat) -> Seq<char>
    decreases n,
{
    if n == 0 {
        Seq::empty()
    } else {
        glance_rows(products, shown, (n - 1) as nat) + glance_row(products[n - 1], shown[n - 1])
    }
}

/// The table of the products; there is none for a single one.
pub open spec fn glance_of(products: Seq<SectionV>, shown: Seq<GlanceShown>) -> Seq<char> {
    if products.len() < 2 {
        ""@
    } else {
        "<div class=\"ttable\"><table><thead><tr><th>project</th><th>spend</th><th>crm leads</th><th>qualified</th><th>cost / qualified</th><th>missing</th></tr></thead><tbody>"@
            + glance_rows(products, shown, products.len()) + "</tbody></table></div>"@
    }
}

/// Makes the table of the products.
pub fn glance(products: &Vec<ProductSection>, shown: &Vec<GlanceShown>) -> (r: String)
    requires
        shown@.len() == products@.len(),
    ensures
        r@ == glance_of(sections_view(products@), shown@),
{
    let ghost all = sections_view(products@);
    assert(all.len() == products@.len());
    if products.len() < 2 {
        return "".to_owned();
    }
    let mut out =
        "<div class=\"ttable\"><table><thead><tr><th>project</th><th>spend</th><th>crm leads</th><th>qualified</th><th>cost / qualified</th><th>missing</th></tr></thead><tbody>".to_owned();
    let ghost head = out@;
    let mut i: usize = 0;
    assert(head + glance_rows(all, shown@, 0) =~= head);
    while i < products.len()
        invariant
            i <= products@.len(),
            all == sections_view(products@),
            shown@.len() == products@.len(),
            out@ == head + glance_rows(all, shown@, i as nat),
        decreases products.len() - i,
    {
        let (p, f) = (&products[i], &shown[i]);
        assert(all[i as int] == p@);
        let miss: u128 = count_seg(p).uncaptured;
        let (s, name) = (slug(p.product.as_str()), esc(p.product.as_str()));
        let (spend, cpq) = (rupees(f.spend), show_opt(f.cpq));
        let (l, q) = (decimal(f.kpis.funnel.l_leads), decimal(f.kpis.funnel.qualified));
        let class = if miss > 0 {
            " class=\"red\""
        } else {
            " class=\"dim\""
        };
        let m = decimal_wide(miss);
        let row = fill(
            "<tr><td class=\"nm\"><a href=\"#p-{}\">{}</a></td><td>{}</td><td>{}</td><td>{}</td><td>{}</td><td{}>{}</td></tr>",
            &vec![
                s.as_str(),
                name.as_str(),
                spend.as_str(),
                l.as_str(),
                q.as_str(),
                cpq.as_str(),
                class,
                m.as_str(),
            ],
        );
        out.append(row.as_str());
        assert((i + 1) as nat - 1 == i as nat);
        assert(out@ =~= head + glance_rows(all, shown@, (i + 1) as nat));
        i += 1;
    }
    out.append("</tbody></table></div>");
    out
}

// Targetings

/// How a targeting is shown.
#[derive(Debug)]
pub struct TargetingRow {
    pub targeting: String,
    pub archetype: String,
    pub specs: Option<TargetingSpecs>,
    pub spend: u64,
    pub cpl: u64,
    pub m_leads: u64,
    pub l_leads: u64,
    pub qualified: u64,
    pub cpq: u64,
    pub seven_spend: u64,
    pub seven_qualified: u64,
    pub seven_cpq: u64,
    pub verdicts: Vec<Verdict>,
}

/// A fact of an audience; what says nothing is left out.
pub open spec fn fact_html(f: Option<Seq<char>>) -> Seq<char> {
    match f {
        Some(t) => if t != "-"@ && t != "all"@ {
            filled("<span class=\"fact\">{}</span>"@, seq![esc_of(t)])
        } else {
            Seq::empty()
        },
        None => Seq::empty(),
    }
}

pub open spec fn learning_html(l: Option<Seq<char>>) -> Seq<char> {
    match l {
        Some(t) => if t != "SUCCESS"@ {
            filled("<span class=\"fact\">{}</span>"@, seq![esc_of(t)])
        } else {
            Seq::empty()
        },
        None => Seq::empty(),
    }
}

pub open spec fn facts_html(s: Option<TargetingSpecs>) -> Seq<char> {
    match s {
        Some(s) => fact_html(s@.age) + fact_html(s@.geo) + fact_html(s@.genders) + learning_html(
            s@.learning,
        ),
        None => Seq::empty(),
    }
}

fn show_fact(f: &Option<String>) -> (r: String)
    ensures
        r@ == fact_html(crate::strs::opt_view(*f)),
{
    if let Some(t) = f {
        if !same(t.as_str(), "-") && !same(t.as_str(), "all") {
            let e = esc(t.as_str());
            return fill("<span class=\"fact\">{}</span>", &vec![e.as_str()]);
        }
    }
    let r = String::new();
    assert(r@ =~= Seq::empty());
    r
}

fn show_learning(f: &Option<String>) -> (r: String)
    ensures
        r@ == learning_html(crate::strs::opt_view(*f)),
{
    if let Some(t) = f {
        if !same(t.as_str(), "SUCCESS") {
            let e = esc(t.as_str());
            return fill("<span class=\"fact\">{}</span>", &vec![e.as_str()]);
        }
    }
    let r = String::new();
    assert(r@ =~= Seq::empty());
    r
}

fn show_facts(s: &Option<TargetingSpecs>) -> (r: String)
    ensures
        r@ == facts_html(*s),
{
    match s {
        Some(s) => cat4(
            show_fact(&s.age).as_str(),
            show_fact(&s.geo).as_str(),
            show_fact(&s.genders).as_str(),
            show_learning(&s.learning).as_str(),
        ),
        None => {
            let r = String::new();
            assert(r@ =~= Seq::empty());
            r
        },
    }
}

pub open spec fn chips_html(v: Seq<Verdict>, n: nat) -> Seq<char>
    decreases n,
{
    if n == 0 {
        Seq::empty()
    } else {
        chips_html(v, (n - 1) as nat) + filled(
            "<span class=\"vchip {}\" title=\"{}\">{}</span> "@,
            seq![esc_of(v[n - 1].code@), esc_of(v[n - 1].detail@), esc_of(v[n - 1].label@)],
        )
    }
}

fn show_chips(v: &Vec<Verdict>) -> (r: String)
    ensures
        r@ == trim_end(chips_html(v@, v@.len())),
{
    let mut out = String::new();
    let mut i: usize = 0;
    assert(out@ =~= chips_html(v@, 0));
    while i < v.len()
        invariant
            i <= v@.len(),
            out@ == chips_html(v@, i as nat),
        decreases v.len() - i,
    {
        let (code, detail) = (esc(v[i].code.as_str()), esc(v[i].detail.as_str()));
        let label = esc(v[i].label.as_str());
        let chip = fill(
            "<span class=\"vchip {}\" title=\"{}\">{}</span> ",
            &vec![code.as_str(), detail.as_str(), label.as_str()],
        );
        assert((i + 1) as nat - 1 == i as nat);
        out.append(chip.as_str());
        i += 1;
    }
    rtrim(out.as_str())
}

/// What seven days brought.
pub open spec fn seven_text(t: TargetingRow) -> Seq<char> {
    if t.seven_qualified > 0 {
        filled(
            "{} &middot; {} &middot; {}"@,
            seq![
                rupees_of(t.seven_spend),
                dec(t.seven_qualified as nat),
                rupees_of(t.seven_cpq),
            ],
        )
    } else {
        filled("{} &middot; 0 &middot; -"@, seq![rupees_of(t.seven_spend)])
    }
}

fn show_seven(t: &TargetingRow) -> (r: String)
    ensures
        r@ == seven_text(*t),
{
    let spend = rupees(t.seven_spend);
    if t.seven_qualified > 0 {
        let (q, c) = (decimal(t.seven_qualified), rupees(t.seven_cpq));
        fill(
            "{} &middot; {} &middot; {}",
            &vec![spend.as_str(), q.as_str(), c.as_str()],
        )
    } else {
        fill("{} &middot; 0 &middot; -", &vec![spend.as_str()])
    }
}

pub open spec fn targeting_html(t: TargetingRow) -> Seq<char> {
    filled(
        "<tr><td class=\"tg-nm\">{}<span class=\"tg-arch\">{}</span><span class=\"tg-facts\">{}</span></td><td>{}</td><td>{}</td><td{}>{}</td><td{}>{}</td><td{}>{}</td><td>{}</td><td>{}</td><td class=\"tg-vd\">{}</td></tr>"@,
        seq![
            esc_of(t.targeting@),
            esc_of(t.archetype@),
            facts_html(t.specs),
            rupees_of(t.spend),
            cost_of(t.m_leads as nat, t.cpl),
            dim_of(t.m_leads as nat),
            dec(t.m_leads as nat),
            dim_of(t.l_leads as nat),
            dec(t.l_leads as nat),
            dim_of(t.qualified as nat),
            dec(t.qualified as nat),
            cost_of(t.qualified as nat, t.cpq),
            seven_text(t),
            trim_end(chips_html(t.verdicts@, t.verdicts@.len())),
        ],
    )
}

pub open spec fn targetings_html(rows: Seq<TargetingRow>, n: nat) -> Seq<char>
    decreases n,
{
    if n == 0 {
        Seq::empty()
    } else {
        targetings_html(rows, (n - 1) as nat) + targeting_html(rows[n - 1])
    }
}

pub open spec fn items_html(lines: Seq<Seq<char>>, n: nat) -> Seq<char>
    decreases n,
{
    if n == 0 {
        Seq::empty()
    } else {
        items_html(lines, (n - 1) as nat) + ("<li>"@ + esc_of(lines[n - 1]) + "</li>"@)
    }
}

pub open spec fn cross_html(lines: Seq<Seq<char>>) -> Seq<char> {
    if lines.len() == 0 {
        Seq::empty()
    } else {
        "<div class=\"insight\"><div class=\"ins-h\">Cross-read</div><ul>"@ + items_html(
            lines,
            lines.len(),
        ) + "</ul></div>"@
    }
}

/// The block of the targetings of a product; there is none without targetings.
pub open spec fn block_of(
    product: Seq<char>,
    rows: Seq<TargetingRow>,
    cross: Seq<Seq<char>>,
) -> Seq<char> {
    if rows.len() == 0 {
        ""@
    } else {
        filled(
            "<div class=\"subhead\" id=\"t-{}\"><span>Targeting</span></div><div class=\"tgwrap\"><table class=\"tgtable\"><thead><tr><th>targeting (by spend)</th><th>spend</th><th>cost / meta lead</th><th>meta leads</th><th>crm leads</th><th>qualified</th><th>cost / qualified</th><th>7d: spend &middot; q &middot; cost/q</th><th>verdict</th></tr></thead><tbody>"@,
            seq![slug_of(product)],
        ) + targetings_html(rows, rows.len()) + "</tbody></table></div>"@ + cross_html(cross)
    }
}

fn show_targeting(t: &TargetingRow) -> (r: String)
    ensures
        r@ == targeting_html(*t),
{
    let (name, arch) = (esc(t.targeting.as_str()), esc(t.archetype.as_str()));
    let (facts, spend) = (show_facts(&t.specs), rupees(t.spend));
    let (cpl, cpq) = (cost(t.m_leads, t.cpl), cost(t.qualified, t.cpq));
    let (m, l, q) = (decimal(t.m_leads), decimal(t.l_leads), decimal(t.qualified));
    let (seven, chips) = (show_seven(t), show_chips(&t.verdicts));
    fill(
        "<tr><td class=\"tg-nm\">{}<span class=\"tg-arch\">{}</span><span class=\"tg-facts\">{}</span></td><td>{}</td><td>{}</td><td{}>{}</td><td{}>{}</td><td{}>{}</td><td>{}</td><td>{}</td><td class=\"tg-vd\">{}</td></tr>",
        &vec![
            name.as_str(),
            arch.as_str(),
            facts.as_str(),
            spend.as_str(),
            cpl.as_str(),
            dim(t.m_leads),
            m.as_str(),
            dim(t.l_leads),
            l.as_str(),
            dim(t.qualified),
            q.as_str(),
            cpq.as_str(),
            seven.as_str(),
            chips.as_str(),
        ],
    )
}

fn show_cross(lines: &Vec<String>) -> (r: String)
    ensures
        r@ == cross_html(views(lines@)),
{
    let ghost all = views(lines@);
    assert(all.len() == lines@.len());
    let mut out = String::new();
    if lines.len() == 0 {
        assert(out@ =~= Seq::empty());
        return out;
    }
    out.append("<div class=\"insight\"><div class=\"ins-h\">Cross-read</div><ul>");
    let ghost head = "<div class=\"insight\"><div class=\"ins-h\">Cross-read</div><ul>"@;
    let mut i: usize = 0;
    assert(out@ =~= head + items_html(all, 0));
    while i < lines.len()
        invariant
            i <= lines@.len(),
            all == views(lines@),
            out@ == head + items_html(all, i as nat),
        decreases lines.len() - i,
    {
        assert(all[i as int] == lines@[i as int]@);
        let item = cat3("<li>", esc(lines[i].as_str()).as_str(), "</li>");
        out.append(item.as_str());
        assert((i + 1) as nat - 1 == i as nat);
        assert(out@ =~= head + items_html(all, (i + 1) as nat));
        i += 1;
    }
    out.append("</ul></div>");
    out
}

/// Makes the block of the targetings of a product.
pub fn targeting_block(product: &str, rows: &Vec<TargetingRow>, cross: &Vec<String>) -> (r: String)
    ensures
        r@ == block_of(product@, rows@, views(cross@)),
{
    if rows.len() == 0 {
        return "".to_owned();
    }
    let s = slug(product);
    let mut out = fill(
        "<div class=\"subhead\" id=\"t-{}\"><span>Targeting</span></div><div class=\"tgwrap\"><table class=\"tgtable\"><thead><tr><th>targeting (by spend)</th><th>spend</th><th>cost / meta lead</th><th>meta leads</th><th>crm leads</th><th>qualified</th><th>cost / qualified</th><th>7d: spend &middot; q &middot; cost/q</th><th>verdict</th></tr></thead><tbody>",
        &vec![s.as_str()],
    );
    let ghost head = out@;
    let mut i: usize = 0;
    assert(head + targetings_html(rows@, 0) =~= head);
    while i < rows.len()
        invariant
            i <= rows@.len(),
            out@ == head + targetings_html(rows@, i as nat),
        decreases rows.len() - i,
    {
        let row = show_targeting(&rows[i]);
        out.append(row.as_str());
        assert((i + 1) as nat - 1 == i as nat);
        assert(out@ =~= head + targetings_html(rows@, (i + 1) as nat));
        i += 1;
    }
    out.append("</tbody></table></div>");
    out.append(show_cross(cross).as_str());
    out
}

} // verus!
