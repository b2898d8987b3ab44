//! The table that compares the cards of a product, one row for each.

use crate::brief::print::grouped;
use crate::dates::{date_shown, day_of, parse_day, show_date};
use crate::report::card::CardV;
use crate::report::html::{
    cost, cost_of, rate, rate_of, rupees, rupees_of, status_class, status_class_of, CardShown,
};
use crate::report::markup::{commas, esc, esc_of, fill, filled, slug, slug_of};
use crate::report::summary::{count, count_at};
use crate::report::SectionV;
use crate::schema::{CreativeCard, ProductSection, Segmentation};
use crate::strs::{cat2, cat3, cat4, dec, decimal, decimal_len, decimal_wide};
use vstd::prelude::*;

pub mod laws;

verus! {

/// Since when a creative is live: its day, and how many days ago that was.
pub open spec fn live_since_of(created: Option<Seq<char>>, report_date: Seq<char>) -> Seq<char> {
    match created {
        Some(c) => match (day_of(c), day_of(report_date)) {
            (Some(a), Some(b)) => date_shown(c, "%d %b"@) + " &middot; "@ + dec(
                if b < a {
                    0
                } else {
                    (b - a) as nat
                },
            ) + "d"@,
            _ => esc_of(c),
        },
        None => "-"@,
    }
}

pub fn live_since(created: &Option<String>, report_date: &str) -> (r: String)
    ensures
        r@ == live_since_of(crate::strs::opt_view(*created), report_date@),
{
    match created {
        Some(c) => match (parse_day(c.as_str()), parse_day(report_date)) {
            (Some(a), Some(b)) => {
                let days: u64 = if b < a {
                    0
                } else {
                    (b as i64 - a as i64) as u64
                };
                cat4(
                    show_date(c.as_str(), "%d %b").as_str(),
                    " &middot; ",
                    decimal(days).as_str(),
                    "d",
                )
            },
            _ => esc(c.as_str()),
        },
        None => "-".to_owned(),
    }
}

/// A number with its sign.
pub open spec fn signed_of(d: int) -> Seq<char> {
    if d < 0 {
        "-"@ + dec((-d) as nat)
    } else {
        "+"@ + dec(d as nat)
    }
}

/// How many leads of the ads are not in the CRM: of those that were sorted out, or else by count.
pub open spec fn gap_of(c: CardV) -> int {
    match c.segmentation {
        Some(s) => s.total - s.captured,
        None => count_at(c, 2) - count_at(c, 3),
    }
}

pub open spec fn diff_of(c: CardV) -> Seq<char> {
    if gap_of(c) == 0 {
        "<td class=\"dim\">0</td>"@
    } else {
        "<td>"@ + signed_of(gap_of(c)) + "</td>"@
    }
}

pub fn diff_cell(c: &CreativeCard) -> (r: String)
    ensures
        r@ == diff_of(c@),
{
    let (a, b): (u64, u64) = match &c.segmentation {
        Some(s) => (s.total, s.captured),
        None => (count(c, 2), count(c, 3)),
    };
    if a == b {
        "<td class=\"dim\">0</td>".to_owned()
    } else {
        let d = if a < b {
            cat2("-", decimal(b - a).as_str())
        } else {
            cat2("+", decimal(a - b).as_str())
        };
        cat3("<td>", d.as_str(), "</td>")
    }
}

pub open spec fn seg_cell(n: nat) -> Seq<char> {
    if n == 0 {
        "<td class=\"seg dim\">0</td>"@
    } else {
        "<td class=\"seg\">"@ + dec(n) + "</td>"@
    }
}

fn show_seg(n: u128) -> (r: String)
    ensures
        r@ == seg_cell(n as nat),
{
    if n == 0 {
        "<td class=\"seg dim\">0</td>".to_owned()
    } else {
        cat3("<td class=\"seg\">", decimal_wide(n).as_str(), "</td>")
    }
}

/// The cells of what became of the leads: returning, repeated, and rejected or lost.
pub open spec fn seg_cells_of(s: Option<Segmentation>) -> Seq<char> {
    match s {
        Some(s) => seg_cell(s.reinquiry as nat) + seg_cell(s.duplicate as nat) + seg_cell(
            (s.invalid + s.uncaptured) as nat,
        ),
        None => "<td class=\"seg dim\">-</td><td class=\"seg dim\">-</td><td class=\"seg dim\">-</td>"@,
    }
}

pub fn seg_cells(s: &Option<Segmentation>) -> (r: String)
    ensures
        r@ == seg_cells_of(*s),
{
    match s {
        Some(s) => cat3(
            show_seg(s.reinquiry as u128).as_str(),
            show_seg(s.duplicate as u128).as_str(),
            show_seg(s.invalid as u128 + s.uncaptured as u128).as_str(),
        ),
        None => "<td class=\"seg dim\">-</td><td class=\"seg dim\">-</td><td class=\"seg dim\">-</td>".to_owned(),
    }
}

/// A count of nothing is dimmed.
pub open spec fn dim_of(n: nat) -> Seq<char> {
    if n == 0 {
        " class=\"dim\""@
    } else {
        ""@
    }
}

pub fn dim(n: u64) -> (r: &'static str)
    ensures
        r@ == dim_of(n as nat),
{
    if n == 0 {
        " class=\"dim\""
    } else {
        ""
    }
}

pub open spec fn two_digits(n: nat) -> Seq<char> {
    if n < 10 {
        "0"@ + dec(n)
    } else {
        dec(n)
    }
}

fn show_two(n: usize) -> (r: String)
    ensures
        r@ == two_digits(n as nat),
{
    if n < 10 {
        cat2("0", decimal_len(n).as_str())
    } else {
        decimal_len(n)
    }
}

/// The row of a card at a rank.
pub open spec fn row_html(
    rank: nat,
    pslug: Seq<char>,
    c: CardV,
    f: CardShown,
    report_date: Seq<char>,
) -> Seq<char> {
    filled(
        "<tr><td class=\"nm\">{} &middot; <a href=\"#c-{}-{}\">{}</a></td><td>{}</td><td><span class=\"stx {}\">{}</span></td><td>{}</td><td>{}</td><td>{}</td><td{}>{}</td><td>{}</td><td>{}</td><td{}>{}</td>{}{}<td{}>{}</td><td{}>{}</td><td{}>{}</td></tr>"@,
        seq![
            two_digits(rank),
            pslug,
            dec(rank),
            esc_of(c.display_name),
            live_since_of(c.created, report_date),
            status_class_of(c.status.code),
            esc_of(c.status.label),
            rupees_of(f.spend),
            grouped(dec(c.delivery.sum.impressions)),
            rate_of(c.delivery.sum.impressions, f.ctr@),
            dim_of(count_at(c, 2)),
            dec(count_at(c, 2)),
            cost_of(c.delivery.sum.m_leads, f.cpl),
            rate_of(count_at(c, 2), f.m_to_l@),
            dim_of(count_at(c, 3)),
            dec(count_at(c, 3)),
            diff_of(c),
            seg_cells_of(c.segmentation),
            dim_of(count_at(c, 4)),
            dec(count_at(c, 4)),
            dim_of(count_at(c, 5)),
            dec(count_at(c, 5)),
            dim_of(count_at(c, 6)),
            dec(count_at(c, 6)),
        ],
    )
}

fn row(rank: usize, pslug: &str, c: &CreativeCard, f: &CardShown, report_date: &str) -> (r: String)
    ensures
        r@ == row_html(rank as nat, pslug@, c@, *f, report_date@),
{
    let (two, n) = (show_two(rank), decimal_len(rank));
    let (name, label) = (esc(c.display_name.as_str()), esc(c.status.label.as_str()));
    let since = live_since(&c.created, report_date);
    let (spend, impr) = (rupees(f.spend), commas(c.delivery.impressions));
    let ctr = rate(c.delivery.impressions, f.ctr.as_str());
    let (m, l) = (count(c, 2), count(c, 3));
    let (q, v, b) = (count(c, 4), count(c, 5), count(c, 6));
    let (mt, lt) = (decimal(m), decimal(l));
    let (qt, vt, bt) = (decimal(q), decimal(v), decimal(b));
    let cpl = cost(c.delivery.m_leads, f.cpl);
    let m_to_l = rate(m, f.m_to_l.as_str());
    let (diff, segs) = (diff_cell(c), seg_cells(&c.segmentation));
    fill(
        "<tr><td class=\"nm\">{} &middot; <a href=\"#c-{}-{}\">{}</a></td><td>{}</td><td><span class=\"stx {}\">{}</span></td><td>{}</td><td>{}</td><td>{}</td><td{}>{}</td><td>{}</td><td>{}</td><td{}>{}</td>{}{}<td{}>{}</td><td{}>{}</td><td{}>{}</td></tr>",
        &vec![
            two.as_str(),
            pslug,
            n.as_str(),
            name.as_str(),
            since.as_str(),
            status_class(c.status.code),
            label.as_str(),
            spend.as_str(),
            impr.as_str(),
            ctr.as_str(),
            dim(m),
            mt.as_str(),
            cpl.as_str(),
            m_to_l.as_str(),
            dim(l),
            lt.as_str(),
            diff.as_str(),
            segs.as_str(),
            dim(q),
            qt.as_str(),
            dim(v),
            vt.as_str(),
            dim(b),
            bt.as_str(),
        ],
    )
}

/// The rows of the first `n` cards.
pub open spec fn rows_html(
    pslug: Seq<char>,
    cards: Seq<CardV>,
    shown: Seq<CardShown>,
    report_date: Seq<char>,
    n: nat,
) -> Seq<char>
    decreases n,
{
    if n == 0 {
        Seq::empty()
    } else {
        rows_html(pslug, cards, shown, report_date, (n - 1) as nat) + row_html(
            n,
            pslug,
            cards[n - 1],
            shown[n - 1],
            report_date,
        )
    }
}

pub open spec fn is_sorted_out(cards: Seq<CardV>) -> bool {
    exists|i: int| 0 <= i < cards.len() && (#[trigger] cards[i]).segmentation is Some
}

/// The table of the cards of a product. Where leads were sorted out, it can be widened by what
/// became of them.
pub open spec fn table_html(p: SectionV, shown: Seq<CardShown>, report_date: Seq<char>) -> Seq<char> {
    let s = slug_of(p.product);
    let id = "segx-"@ + s;
    filled(
        "<div class=\"ttable\"><input type=\"checkbox\" id=\"{}\" class=\"segx\"><table><thead><tr><th>creative (ranked)</th><th>live since</th><th>status</th><th>spend</th><th>impr</th><th>ctr</th><th>m-leads</th><th>cpl</th><th>m&gt;l</th><th>l-leads</th><th title=\"Meta leads that never became CRM leads. Expand for the split.\">diff{}</th><th class=\"seg\" title=\"contact already in the CRM under another campaign or as an organic lead - a returning person\">re-inq</th><th class=\"seg\" title=\"same contact submitted again in the window or campaign\">dup</th><th class=\"seg\" title=\"invalid phone (CRM rejects) or a genuine sync gap to recover\">other</th><th>qual</th><th>visits</th><th>book</th></tr></thead><tbody>"@,
        seq![
            id,
            if is_sorted_out(p.creatives) {
                filled(" <label for=\"{}\" class=\"segl\">+</label>"@, seq![id])
            } else {
                ""@
            },
        ],
    ) + rows_html(s, p.creatives, shown, report_date, p.creatives.len()) + "</tbody></table></div>"@
}

/// Makes the table of the cards of a product.
pub fn comparison_table(p: &ProductSection, shown: &Vec<CardShown>, report_date: &str) -> (r: String)
    requires
        shown@.len() == p.creatives@.len(),
    ensures
        r@ == table_html(p@, shown@, report_date@),
{
    let ghost cards = p@.creatives;
    assert(cards.len() == p.creatives@.len());
    let mut sorted = false;
    let mut k: usize = 0;
    while k < p.creatives.len()
        invariant
            k <= p.creatives@.len(),
            cards == p@.creatives,
            cards.len() == p.creatives@.len(),
            sorted == exists|i: int|
                0 <= i < k && (#[trigger] cards[i]).segmentation is Some,
        decreases p.creatives.len() - k,
    {
        assert(cards[k as int] == p.creatives@[k as int]@);
        if p.creatives[k].segmentation.is_some() {
            sorted = true;
        }
        k += 1;
    }
    assert(sorted == is_sorted_out(cards));
    let s = slug(p.product.as_str());
    let id = cat2("segx-", s.as_str());
    let expander = if sorted {
        fill(" <label for=\"{}\" class=\"segl\">+</label>", &vec![id.as_str()])
    } else {
        "".to_owned()
    };
    let mut out = fill(
        "<div class=\"ttable\"><input type=\"checkbox\" id=\"{}\" class=\"segx\"><table><thead><tr><th>creative (ranked)</th><th>live since</th><th>status</th><th>spend</th><th>impr</th><th>ctr</th><th>m-leads</th><th>cpl</th><th>m&gt;l</th><th>l-leads</th><th title=\"Meta leads that never became CRM leads. Expand for the split.\">diff{}</th><th class=\"seg\" title=\"contact already in the CRM under another campaign or as an organic lead - a returning person\">re-inq</th><th class=\"seg\" title=\"same contact submitted again in the window or campaign\">dup</th><th class=\"seg\" title=\"invalid phone (CRM rejects) or a genuine sync gap to recover\">other</th><th>qual</th><th>visits</th><th>book</th></tr></thead><tbody>",
        &vec![id.as_str(), expander.as_str()],
    );
    let ghost head = out@;
    let mut i: usize = 0;
    assert(head + rows_html(s@, cards, shown@, report_date@, 0) =~= head);
    while i < p.creatives.len()
        invariant
            i <= p.creatives@.len(),
            cards == p@.creatives,
            shown@.len() == p.creatives@.len(),
            out@ == head + rows_html(s@, cards, shown@, report_date@, i as nat),
        decreases p.creatives.len() - i,
    {
        assert(cards[i as int] == p.creatives@[i as int]@);
        let one = row(i + 1, s.as_str(), &p.creatives[i], &shown[i], report_date);
        out.append(one.as_str());
        assert((i + 1) as nat - 1 == i as nat);
        assert(out@ =~= head + rows_html(s@, cards, shown@, report_date@, (i + 1) as nat));
        i += 1;
    }
    out.append("</tbody></table></div>");
    out
}

} // verus!
