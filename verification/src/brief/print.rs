//! The summary as it is printed.

use crate::brief::{best_rpq, least_of, ProductTotals};
use crate::funnel::print::opt_dec;
use crate::funnel::{leads_together, total_leads};
use crate::report::markup::commas;
use crate::sets::lists_view;
use crate::strs::{
    cat2, cat3, cat5, dec, decimal, decimal_len, end_lines, join, joined, push_text, repeat,
    repeated, slice_text, text_lines, views,
};
use crate::table::{filled, line, measure_all, nats, widths_of};
use vstd::prelude::*;

pub mod laws;

verus! {

/// The row of one product. A number that is no integer is kept as it is shown.
#[derive(Debug)]
pub struct ProductRow {
    pub product: String,
    pub spend_per_day: u64,
    pub m7d: u64,
    pub l7d: u64,
    pub q7d: u64,
    pub q_per_day: String,
    pub rs_per_q: Option<u64>,
    pub l_to_q: Option<String>,
    pub goal: String,
    pub gap: String,
    pub trend: String,
}

/// What the goals would cost. A number that is no integer is kept as it is shown.
#[derive(Debug)]
pub struct Feasibility {
    pub tot_q_per_day: String,
    pub tot_spend_per_day: u64,
    pub tot_goal_per_day: String,
    pub cur_rpq: u64,
    /// What it takes a day at the price of now, and how many times that is what is spent.
    pub required_at_cur: Option<(u64, String)>,
    /// The same at the best price, and that price.
    pub required_at_best: Option<(u64, String)>,
    pub best_rpq: Option<u64>,
    pub open_debt: Vec<String>,
}

/// The amounts and rates of a product as they are shown. What would be divided by a count of none is
/// not looked at.
#[derive(Debug)]
pub struct ProductFigures {
    pub spend_per_day: u64,
    pub q_per_day: String,
    pub rs_per_q: u64,
    pub l_to_q: String,
    pub goal: String,
    pub gap: String,
    pub trend: String,
}

/// The row of a product: a rate is there where its divisor is not zero.
pub fn product_row(product: String, t: &ProductTotals, f: ProductFigures) -> (r: ProductRow)
    ensures
        r == (ProductRow {
            product,
            spend_per_day: f.spend_per_day,
            m7d: t.m7d,
            l7d: t.l7d,
            q7d: t.q7d,
            q_per_day: f.q_per_day,
            rs_per_q: if t.q7d > 0 {
                Some(f.rs_per_q)
            } else {
                None
            },
            l_to_q: if t.l7d > 0 {
                Some(f.l_to_q)
            } else {
                None
            },
            goal: f.goal,
            gap: f.gap,
            trend: f.trend,
        }),
{
    ProductRow {
        product,
        spend_per_day: f.spend_per_day,
        m7d: t.m7d,
        l7d: t.l7d,
        q7d: t.q7d,
        q_per_day: f.q_per_day,
        rs_per_q: if t.q7d > 0 {
            Some(f.rs_per_q)
        } else {
            None
        },
        l_to_q: if t.l7d > 0 {
            Some(f.l_to_q)
        } else {
            None
        },
        goal: f.goal,
        gap: f.gap,
        trend: f.trend,
    }
}

/// What the products spend a day, in turn.
pub open spec fn spends(rows: Seq<ProductRow>) -> Seq<u64> {
    rows.map_values(|r: ProductRow| r.spend_per_day)
}

/// What the products spend a day together, where `u64` holds it.
pub fn total_spend(rows: &Vec<ProductRow>) -> (r: Option<u64>)
    ensures
        match r {
            Some(n) => n == leads_together(spends(rows@)),
            None => leads_together(spends(rows@)) > u64::MAX,
        },
{
    let ghost all = spends(rows@);
    let mut v: Vec<u64> = Vec::new();
    let mut i: usize = 0;
    while i < rows.len()
        invariant
            i <= rows@.len(),
            all == spends(rows@),
            v@ == all.take(i as int),
        decreases rows.len() - i,
    {
        assert(all.take(i + 1) =~= all.take(i as int).push(all[i as int]));
        v.push(rows[i].spend_per_day);
        i += 1;
    }
    assert(all.take(i as int) =~= all);
    total_leads(&v)
}

/// The prices of a qualified lead, in turn.
pub open spec fn prices(rows: Seq<ProductRow>) -> Seq<Option<u64>> {
    rows.map_values(|r: ProductRow| r.rs_per_q)
}

/// The best price of a qualified lead.
pub fn best_price(rows: &Vec<ProductRow>) -> (r: Option<u64>)
    ensures
        r == least_of(prices(rows@)),
{
    let ghost all = prices(rows@);
    let mut v: Vec<Option<u64>> = Vec::new();
    let mut i: usize = 0;
    while i < rows.len()
        invariant
            i <= rows@.len(),
            all == prices(rows@),
            v@ == all.take(i as int),
        decreases rows.len() - i,
    {
        assert(all.take(i + 1) =~= all.take(i as int).push(all[i as int]));
        v.push(rows[i].rs_per_q);
        i += 1;
    }
    assert(all.take(i as int) =~= all);
    best_rpq(&v)
}

/// The amounts and rates of all products as they are shown. Those of now are not looked at where
/// there is no qualified lead, and those at the best price where there is no price.
#[derive(Debug)]
pub struct TotalFigures {
    pub q_per_day: String,
    pub goals: String,
    pub cur_rpq: u64,
    pub at_cur: (u64, String),
    pub at_best: (u64, String),
}

/// Whether a product has a qualified lead.
pub open spec fn is_any_qualified(rows: Seq<ProductRow>) -> bool {
    exists|i: int| 0 <= i < rows.len() && (#[trigger] rows[i]).q7d > 0
}

fn any_qualified(rows: &Vec<ProductRow>) -> (r: bool)
    ensures
        r == is_any_qualified(rows@),
{
    let mut i: usize = 0;
    while i < rows.len()
        invariant
            i <= rows@.len(),
            forall|k: int| 0 <= k < i ==> (#[trigger] rows@[k]).q7d == 0,
        decreases rows.len() - i,
    {
        if rows[i].q7d > 0 {
            return true;
        }
        i += 1;
    }
    false
}

/// What the goals of the products would cost.
pub fn feasibility(
    rows: &Vec<ProductRow>,
    spend: u64,
    f: TotalFigures,
    open_debt: Vec<String>,
) -> (r: Feasibility)
    ensures
        r == (Feasibility {
            tot_q_per_day: f.q_per_day,
            tot_spend_per_day: spend,
            tot_goal_per_day: f.goals,
            cur_rpq: if is_any_qualified(rows@) {
                f.cur_rpq
            } else {
                0
            },
            required_at_cur: if is_any_qualified(rows@) {
                Some(f.at_cur)
            } else {
                None
            },
            required_at_best: if least_of(prices(rows@)) is Some {
                Some(f.at_best)
            } else {
                None
            },
            best_rpq: least_of(prices(rows@)),
            open_debt,
        }),
{
    let qualified = any_qualified(rows);
    let best = best_price(rows);
    Feasibility {
        tot_q_per_day: f.q_per_day,
        tot_spend_per_day: spend,
        tot_goal_per_day: f.goals,
        cur_rpq: if qualified {
            f.cur_rpq
        } else {
            0
        },
        required_at_cur: if qualified {
            Some(f.at_cur)
        } else {
            None
        },
        required_at_best: if best.is_some() {
            Some(f.at_best)
        } else {
            None
        },
        best_rpq: best,
        open_debt,
    }
}

#[derive(Debug)]
pub struct ProductRowsAndFeasibility {
    pub rows: Vec<ProductRow>,
    pub feasibility: Feasibility,
}

// Numbers

/// Digits in groups of three, with commas between them.
pub open spec fn grouped(s: Seq<char>) -> Seq<char>
    decreases s.len(),
{
    if s.len() <= 3 {
        s
    } else {
        grouped(s.take(s.len() - 3)) + ","@ + s.skip(s.len() - 3)
    }
}

pub(crate) fn group_digits(v: &Vec<char>, n: usize) -> (r: String)
    requires
        n <= v@.len(),
    ensures
        r@ == grouped(v@.take(n as int)),
    decreases n,
{
    let ghost s = v@.take(n as int);
    if n <= 3 {
        let t = slice_text(v, 0, n);
        assert(t@ =~= s);
        t
    } else {
        let head = group_digits(v, n - 3);
        let tail = slice_text(v, n - 3, n);
        assert(s.take(s.len() - 3) =~= v@.take(n - 3));
        assert(tail@ =~= s.skip(s.len() - 3));
        cat3(head.as_str(), ",", tail.as_str())
    }
}

/// A number with commas between groups of three digits.
pub open spec fn comma_of(n: int) -> Seq<char> {
    if n < 0 {
        "-"@ + grouped(dec((-n) as nat))
    } else {
        grouped(dec(n as nat))
    }
}

pub fn comma(n: i64) -> (r: String)
    requires
        n > i64::MIN,
    ensures
        r@ == comma_of(n as int),
{
    let size: u64 = if n < 0 {
        (-n) as u64
    } else {
        n as u64
    };
    let digits = crate::strs::chars_of(decimal(size).as_str());
    let t = group_digits(&digits, digits.len());
    assert(digits@.take(digits@.len() as int) =~= digits@);
    if n < 0 {
        cat2("-", t.as_str())
    } else {
        t
    }
}

/// Without its commas a number is shown as its digits.
pub proof fn law_commas_only_group(s: Seq<char>)
    requires
        forall|k: int| 0 <= k < s.len() ==> #[trigger] s[k] != ',',
    ensures
        grouped(s).filter(|c: char| c != ',') == s,
    decreases s.len(),
{
    let keep = |c: char| c != ',';
    if s.len() <= 3 {
        lemma_filter_none(s);
    } else {
        let a = s.take(s.len() - 3);
        let b = s.skip(s.len() - 3);
        law_commas_only_group(a);
        lemma_filter_none(b);
        reveal_strlit(",");
        Seq::filter_distributes_over_add(grouped(a) + ","@, b, keep);
        Seq::filter_distributes_over_add(grouped(a), ","@, keep);
        assert(","@.filter(keep) =~= Seq::<char>::empty()) by {
            reveal(Seq::filter);
            assert(","@.last() == ',');
            let none = ","@.drop_last();
            assert(none.len() == 0);
            assert(none.filter(keep) =~= Seq::<char>::empty());
        }
        assert(a + Seq::<char>::empty() + b =~= s);
    }
}

proof fn lemma_filter_none(s: Seq<char>)
    requires
        forall|k: int| 0 <= k < s.len() ==> #[trigger] s[k] != ',',
    ensures
        s.filter(|c: char| c != ',') == s,
    decreases s.len(),
{
    reveal(Seq::filter);
    if s.len() > 0 {
        assert(forall|k: int| 0 <= k < s.len() - 1 ==> s.drop_last()[k] == #[trigger] s[k]);
        lemma_filter_none(s.drop_last());
        assert(s[s.len() - 1] != ',');
        assert(s =~= s.drop_last().push(s.last()));
    } else {
        assert(s =~= Seq::<char>::empty());
    }
}

// The table

pub open spec fn brief_columns() -> Seq<Seq<char>> {
    seq![
        "product"@,
        "spend_per_day"@,
        "m7d"@,
        "l7d"@,
        "q7d"@,
        "q_per_day"@,
        "rs_per_q"@,
        "l_to_q"@,
        "goal"@,
        "gap"@,
        "q_last7_by_day"@,
    ]
}

/// The cells of a row, in the order of the columns.
pub open spec fn brief_cells(r: ProductRow) -> Seq<Seq<char>> {
    seq![
        r.product@,
        dec(r.spend_per_day as nat),
        dec(r.m7d as nat),
        dec(r.l7d as nat),
        dec(r.q7d as nat),
        r.q_per_day@,
        opt_dec(r.rs_per_q),
        match r.l_to_q {
            Some(t) => t@,
            None => "-"@,
        },
        r.goal@,
        r.gap@,
        r.trend@,
    ]
}

pub open spec fn all_brief_cells(rows: Seq<ProductRow>) -> Seq<Seq<Seq<char>>> {
    rows.map_values(|r: ProductRow| brief_cells(r))
}

fn heads() -> (v: Vec<String>)
    ensures
        views(v@) == brief_columns(),
{
    let mut out: Vec<String> = Vec::new();
    push_text(&mut out, "product".to_owned());
    push_text(&mut out, "spend_per_day".to_owned());
    push_text(&mut out, "m7d".to_owned());
    push_text(&mut out, "l7d".to_owned());
    push_text(&mut out, "q7d".to_owned());
    push_text(&mut out, "q_per_day".to_owned());
    push_text(&mut out, "rs_per_q".to_owned());
    push_text(&mut out, "l_to_q".to_owned());
    push_text(&mut out, "goal".to_owned());
    push_text(&mut out, "gap".to_owned());
    push_text(&mut out, "q_last7_by_day".to_owned());
    assert(views(out@) =~= brief_columns());
    out
}

fn row_cells(r: &ProductRow) -> (v: Vec<String>)
    ensures
        views(v@) == brief_cells(*r),
{
    let mut out: Vec<String> = Vec::new();
    push_text(&mut out, r.product.clone());
    push_text(&mut out, decimal(r.spend_per_day));
    push_text(&mut out, decimal(r.m7d));
    push_text(&mut out, decimal(r.l7d));
    push_text(&mut out, decimal(r.q7d));
    push_text(&mut out, r.q_per_day.clone());
    push_text(
        &mut out,
        match r.rs_per_q {
            Some(n) => decimal(n),
            None => "-".to_owned(),
        },
    );
    push_text(
        &mut out,
        match &r.l_to_q {
            Some(t) => t.clone(),
            None => "-".to_owned(),
        },
    );
    push_text(&mut out, r.goal.clone());
    push_text(&mut out, r.gap.clone());
    push_text(&mut out, r.trend.clone());
    assert(views(out@) =~= brief_cells(*r));
    out
}

pub open spec fn brief_lines(cells: Seq<Seq<Seq<char>>>, widths: Seq<nat>) -> Seq<Seq<char>> {
    cells.map_values(|c: Seq<Seq<char>>| joined(filled(c, widths, true), "  "@))
}

/// The table: its heads, a rule below them, and a line for each product.
pub open spec fn brief_table(rows: Seq<ProductRow>) -> Seq<char> {
    let widths = widths_of(brief_columns(), all_brief_cells(rows));
    let head = joined(filled(brief_columns(), widths, true), "  "@);
    joined(
        seq![head, repeated("-"@, head.len())] + brief_lines(all_brief_cells(rows), widths),
        "\n"@,
    )
}

/// Prints the table of the products.
pub fn format_brief_table(rows: &Vec<ProductRow>) -> (r: String)
    ensures
        r@ == brief_table(rows@),
{
    let ghost all = all_brief_cells(rows@);
    let mut cells: Vec<Vec<String>> = Vec::new();
    let mut i: usize = 0;
    assert(lists_view(cells@) =~= all.take(0));
    while i < rows.len()
        invariant
            i <= rows@.len(),
            all == all_brief_cells(rows@),
            lists_view(cells@) == all.take(i as int),
        decreases rows.len() - i,
    {
        let c = row_cells(&rows[i]);
        assert(all[i as int] == brief_cells(rows@[i as int]));
        assert(lists_view(cells@.push(c)) =~= lists_view(cells@).push(views(c@)));
        assert(all.take(i + 1) =~= all.take(i as int).push(views(c@)));
        cells.push(c);
        i += 1;
    }
    assert(all.take(i as int) =~= all);
    let h = heads();
    let widths = measure_all(&h, &cells);
    let ghost w = nats(widths@);
    let head = line(&h, &widths, true);
    let rule = repeat("-", crate::strs::chars_of(head.as_str()).len());
    let ghost top = seq![head@, rule@];
    let mut out: Vec<String> = Vec::new();
    push_text(&mut out, head);
    push_text(&mut out, rule);
    assert(views(out@) =~= top);
    let ghost body = brief_lines(all, w);
    let mut k: usize = 0;
    assert(top + body.take(0) =~= top);
    while k < cells.len()
        invariant
            k <= cells@.len(),
            lists_view(cells@) == all,
            w == nats(widths@),
            body == brief_lines(all, w),
            views(out@) == top + body.take(k as int),
        decreases cells.len() - k,
    {
        assert(all[k as int] == views(cells@[k as int]@));
        push_text(&mut out, line(&cells[k], &widths, true));
        assert(views(out@) =~= top + body.take(k + 1));
        k += 1;
    }
    assert(lists_view(cells@).len() == cells@.len());
    assert(body.take(k as int) =~= body);
    join(&out, "\n")
}

// The whole

pub open spec fn required_line(
    head: Seq<char>,
    required: Option<(u64, Seq<char>)>,
) -> Seq<Seq<char>> {
    match required {
        Some(p) => seq![head + "Rs."@ + grouped(dec(p.0 as nat)) + "/day ("@ + p.1 + "x today)"@],
        None => Seq::empty(),
    }
}

pub open spec fn opt_required(o: Option<(u64, String)>) -> Option<(u64, Seq<char>)> {
    match o {
        Some(p) => Some((p.0, p.1@)),
        None => None,
    }
}

pub open spec fn best_line(f: Feasibility) -> Seq<Seq<char>> {
    match f.best_rpq {
        Some(b) => required_line(
            "  required spend at BEST-OBSERVED Rs."@ + grouped(dec(b as nat)) + "/q : "@,
            opt_required(f.required_at_best),
        ),
        None => Seq::empty(),
    }
}

pub open spec fn debt_suffix(debt: Seq<Seq<char>>) -> Seq<char> {
    if debt.len() == 0 {
        Seq::empty()
    } else {
        " ("@ + joined(debt, ", "@) + ")"@
    }
}

/// All that is printed of a summary.
pub open spec fn brief_text(r: ProductRowsAndFeasibility, date: Seq<char>) -> Seq<char> {
    let f = r.feasibility;
    text_lines(
        seq![
            "BRIEF  snapshot "@ + date + "  (7d window; config.json goals)"@,
            brief_table(r.rows@),
            Seq::empty(),
            "FEASIBILITY  portfolio "@ + f.tot_q_per_day@ + " q/day at Rs."@ + grouped(
                dec(f.tot_spend_per_day as nat),
            ) + "/day = Rs."@ + grouped(dec(f.cur_rpq as nat)) + "/qualified - goal "@
                + f.tot_goal_per_day@ + "/day"@,
        ] + required_line(
            "  required spend at CURRENT efficiency : "@,
            opt_required(f.required_at_cur),
        ) + best_line(f) + seq![
            "  open setup debt: "@ + dec(f.open_debt@.len()) + debt_suffix(views(f.open_debt@)),
        ],
    )
}

fn push_required(out: &mut Vec<String>, head: &str, required: &Option<(u64, String)>)
    ensures
        views(final(out)@) == views(old(out)@) + required_line(head@, opt_required(*required)),
{
    let ghost start = views(out@);
    match required {
        Some(p) => {
            let times = p.1.as_str();
            push_text(
                out,
                crate::strs::cat6(
                    head,
                    "Rs.",
                    commas(p.0).as_str(),
                    "/day (",
                    times,
                    "x today)",
                ),
            );
            assert(views(out@) =~= start + required_line(head@, opt_required(*required)));
        },
        None => {
            assert(start + required_line(head@, opt_required(*required)) =~= start);
        },
    }
}

/// Prints a summary.
pub fn print_brief(r: &ProductRowsAndFeasibility, date: &str) -> (t: String)
    ensures
        t@ == brief_text(*r, date@),
{
    let f = &r.feasibility;
    let mut out: Vec<String> = Vec::new();
    push_text(&mut out, cat3("BRIEF  snapshot ", date, "  (7d window; config.json goals)"));
    push_text(&mut out, format_brief_table(&r.rows));
    push_text(&mut out, String::new());
    let head = cat5(
        "FEASIBILITY  portfolio ",
        f.tot_q_per_day.as_str(),
        " q/day at Rs.",
        commas(f.tot_spend_per_day).as_str(),
        "/day = Rs.",
    );
    push_text(
        &mut out,
        cat5(
            head.as_str(),
            commas(f.cur_rpq).as_str(),
            "/qualified - goal ",
            f.tot_goal_per_day.as_str(),
            "/day",
        ),
    );
    let ghost top = views(out@);
    push_required(&mut out, "  required spend at CURRENT efficiency : ", &f.required_at_cur);
    let ghost mid = views(out@);
    match f.best_rpq {
        Some(b) => {
            let label = cat3(
                "  required spend at BEST-OBSERVED Rs.",
                commas(b).as_str(),
                "/q : ",
            );
            push_required(&mut out, label.as_str(), &f.required_at_best);
        },
        None => {
            assert(mid + best_line(*f) =~= mid);
        },
    }
    assert(views(f.open_debt@).len() == f.open_debt@.len());
    let suffix = if f.open_debt.len() == 0 {
        String::new()
    } else {
        cat3(" (", join(&f.open_debt, ", ").as_str(), ")")
    };
    push_text(
        &mut out,
        cat3("  open setup debt: ", decimal_len(f.open_debt.len()).as_str(), suffix.as_str()),
    );
    proof {
        let want = seq![
            "BRIEF  snapshot "@ + date@ + "  (7d window; config.json goals)"@,
            brief_table(r.rows@),
            Seq::empty(),
            "FEASIBILITY  portfolio "@ + f.tot_q_per_day@ + " q/day at Rs."@ + grouped(
                dec(f.tot_spend_per_day as nat),
            ) + "/day = Rs."@ + grouped(dec(f.cur_rpq as nat)) + "/qualified - goal "@
                + f.tot_goal_per_day@ + "/day"@,
        ];
        assert(top =~= want);
        assert(views(out@) =~= want + required_line(
            "  required spend at CURRENT efficiency : "@,
            opt_required(f.required_at_cur),
        ) + best_line(*f) + seq![
            "  open setup debt: "@ + dec(f.open_debt@.len()) + debt_suffix(views(f.open_debt@)),
        ]);
    }
    end_lines(&out)
}

} // verus!
