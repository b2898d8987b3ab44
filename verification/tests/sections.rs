//! The parts of the page of a report, and the lines that sum it up.

use moneyball_core::report::cross::{cell as judged, cross_reads, pool, rest_leads, Cell, CrossCard};
use moneyball_core::report::exec::{
    brief, is_comparable, is_report_file, prior_dates, BriefCard, BriefTotals, CardFigures, Mover,
};
use moneyball_core::report::html::{cost, kpi_cells, rate, KpiShown};
use moneyball_core::report::sections::{
    delta_cell, exec_brief, glance, missing_banner, reconciliation, scorecard, targeting_block,
    visits_label, Delta, GlanceShown, ScoreShown, TargetingRow,
};
use moneyball_core::report::table::{diff_cell, dim, live_since, seg_cells};
use moneyball_core::schema::{
    CardStatus, CreativeCard, Delivery, ExecLine, FunnelCounts, FunnelStage, GroupKind, Kpis,
    ProductSection, Segmentation, StatusCode, TargetingSpecs, Verdict,
};

fn card(name: &str, counts: [u64; 7], segmentation: Option<Segmentation>) -> CreativeCard {
    let stages =
        ["Impressions", "Clicks", "M-Leads", "L-Leads", "Qualified", "Visit", "Booking"];
    CreativeCard {
        group_key: format!("ad:{}", name),
        group_kind: GroupKind::AdId,
        display_name: name.into(),
        ad_ids: vec![name.into()],
        campaigns: vec![],
        is_video: false,
        status: CardStatus { code: StatusCode::Live, label: "Live".into() },
        created: None,
        permalink: None,
        image: None,
        delivery: Delivery {
            spend: vec![],
            impressions: counts[0],
            reach: 0,
            clicks: counts[1],
            m_leads: counts[2],
        },
        funnel: stages
            .iter()
            .zip(counts)
            .map(|(s, count)| FunnelStage { stage: s.to_string(), count })
            .collect(),
        targetings: vec![],
        trend: vec![],
        segmentation,
    }
}

fn seg(total: u64, captured: u64, reinquiry: u64, uncaptured: u64) -> Segmentation {
    Segmentation { total, captured, reinquiry, duplicate: 0, invalid: 0, uncaptured }
}

fn section(product: &str, creatives: Vec<CreativeCard>) -> ProductSection {
    ProductSection { product: product.into(), creatives }
}

fn kpis(m_leads: u64, l_leads: u64, qualified: u64) -> Kpis {
    Kpis {
        impressions: 1000,
        clicks: 10,
        funnel: FunnelCounts { m_leads, l_leads, qualified, visit: 0, booking: 1 },
        unattributed_l_leads: 0,
    }
}

#[test]
fn the_brief_is_shown_with_its_tones() {
    assert_eq!(exec_brief(&vec![]), "");
    let html = exec_brief(&vec![ExecLine { tone: "win".into(), text: "a < b".into() }]);
    assert!(html.contains(r#"<li class="win"><span class="tagw">Win</span>a &lt; b</li>"#), "{}", html);
}

#[test]
fn missing_leads_make_a_banner() {
    let fine = vec![section("P", vec![card("a", [0; 7], Some(seg(3, 3, 0, 0)))])];
    assert_eq!(missing_banner(&fine, "2026-08-06"), "");
    let bad = vec![section("P", vec![card("a", [0; 7], Some(seg(3, 1, 0, 2)))])];
    let html = missing_banner(&bad, "2026-08-06");
    assert!(html.contains("<b>2 lead(s) are missing from your CRM</b>"), "{}", html);
    assert!(html.contains("P: 2 (a)") && html.contains("2026-08-06"), "{}", html);
}

#[test]
fn changes_are_good_or_bad() {
    assert_eq!(delta_cell(None, true, true), "");
    let same = Delta { same: true, up: false, size: 0 };
    assert_eq!(delta_cell(Some(same), true, true), r#"<div class="okd">unchanged</div>"#);
    let up = Delta { same: false, up: true, size: 1234 };
    assert_eq!(
        delta_cell(Some(up), true, false),
        r#"<div class="okd down">+Rs 1,234 vs last</div>"#
    );
    let down = Delta { same: false, up: false, size: 5 };
    assert_eq!(delta_cell(Some(down), false, false), r#"<div class="okd up">-5 vs last</div>"#);
    assert_eq!((visits_label(0), visits_label(3)), ("none".to_string(), "3".to_string()));
}

#[test]
fn the_scorecard_compares_with_the_report_before() {
    let shown = ScoreShown {
        spend: 5000,
        spend_delta: None,
        cpq: Some(2500),
        cpq_delta: None,
        ctr: "1.0%".into(),
        cpl: 500,
    };
    let before = Some(FunnelCounts { m_leads: 8, l_leads: 5, qualified: 3, visit: 0, booking: 0 });
    let (top, low) = scorecard(&kpis(10, 5, 2), &shown, &before);
    assert!(top.contains("\u{20B9}5,000") && top.contains("\u{20B9}2,500"), "{}", top);
    assert!(top.contains("+2 vs last") && top.contains("-1 vs last"), "{}", top);
    assert!(top.contains("unchanged"), "{}", top);
    assert!(low.contains("1.0%") && low.contains("none"), "{}", low);
}

#[test]
fn the_trail_explains_the_gap() {
    let products = vec![section("P", vec![card("a", [0; 7], Some(seg(5, 2, 1, 1)))])];
    let html = reconciliation(&kpis(5, 2, 1), &products);
    assert_eq!(
        html,
        "<p class=\"recon\">The trail: 5 Meta leads -&gt; 2 arrived in CRM -&gt; 1 qualified. Of the gap of 3: 1 already in your CRM, 1 never arrived (see banner). 1 lead(s) are still syncing and not yet classified.</p>"
    );
    assert_eq!(reconciliation(&kpis(5, 2, 1), &vec![section("P", vec![])]), "");
}

#[test]
fn a_glance_wants_two_products() {
    let one = vec![section("P", vec![])];
    let g = |spend| GlanceShown { kpis: kpis(5, 2, 1), spend, cpq: None };
    assert_eq!(glance(&one, &vec![g(1)]), "");
    let two = vec![section("P", vec![]), section("Q & R", vec![])];
    let html = glance(&two, &vec![g(1000), g(2)]);
    assert!(html.contains(r##"<a href="#p-q-r">Q &amp; R</a>"##), "{}", html);
    assert!(html.contains("\u{20B9}1,000"), "{}", html);
}

#[test]
fn targetings_are_listed_with_their_verdicts() {
    assert_eq!(targeting_block("P", &vec![], &vec![]), "");
    let row = TargetingRow {
        targeting: "Income".into(),
        archetype: "Broad-Income".into(),
        specs: Some(TargetingSpecs {
            geo: Some("Bengaluru 25km".into()),
            age: Some("28-55".into()),
            genders: Some("all".into()),
            learning: Some("SUCCESS".into()),
            optimization_goal: None,
        }),
        spend: 3000,
        cpl: 300,
        m_leads: 10,
        l_leads: 4,
        qualified: 0,
        cpq: 0,
        seven_spend: 9000,
        seven_qualified: 2,
        seven_cpq: 4500,
        verdicts: vec![Verdict {
            code: "wait".into(),
            label: "Wait".into(),
            detail: "no actionable signal yet".into(),
        }],
    };
    let html = targeting_block("P", &vec![row], &vec!["concentrate".into()]);
    assert!(html.contains("Bengaluru 25km") && html.contains("28-55"), "{}", html);
    assert!(!html.contains("SUCCESS") && !html.contains(">all<"), "{}", html);
    assert!(html.contains("\u{20B9}9,000 &middot; 2 &middot; \u{20B9}4,500"), "{}", html);
    assert!(html.contains("no actionable signal yet") && html.contains("<li>concentrate</li>"));
}

#[test]
fn cells_of_the_table() {
    assert_eq!(
        live_since(&Some("2026-07-17".into()), "2026-08-07"),
        "17 Jul &middot; 21d"
    );
    assert_eq!(live_since(&None, "2026-08-07"), "-");
    assert_eq!(live_since(&Some("<x>".into()), "2026-08-07"), "&lt;x&gt;");
    assert_eq!(diff_cell(&card("a", [0, 0, 2, 5, 0, 0, 0], None)), "<td>-3</td>");
    assert_eq!(
        diff_cell(&card("a", [0, 0, 2, 2, 0, 0, 0], None)),
        r#"<td class="dim">0</td>"#
    );
    assert_eq!(diff_cell(&card("a", [0; 7], Some(seg(5, 2, 2, 1)))), "<td>+3</td>");
    assert!(seg_cells(&None).contains("-"));
    assert!(seg_cells(&Some(seg(5, 2, 2, 1))).contains(r#"<td class="seg">2</td>"#));
    assert_eq!((dim(0), dim(1)), (r#" class="dim""#, ""));
    assert_eq!((cost(0, 5), cost(1, 5)), ("-".to_string(), "\u{20B9}5".to_string()));
    assert_eq!((rate(0, "x"), rate(1, "x")), ("-".to_string(), "x".to_string()));
    let cells = kpi_cells(&kpis(10, 5, 2), &KpiShown { spend: 1000, cpl: 100, ctr: "1.0%".into() });
    assert!(cells.contains("\u{20B9}1,000") && !cells.contains("unattributed"), "{}", cells);
}

fn figures(place: u64, enough: bool) -> CardFigures {
    CardFigures {
        enough,
        spend: "3000".into(),
        spend_place: place,
        per_qualified: "900".into(),
        per_qualified_place: place,
        is_value: true,
        per_lead: "90".into(),
        per_lead_place: place,
        is_cheap: true,
        is_heavy: false,
        is_heavy_of_all: false,
    }
}

fn brief_card(name: &str, qualified: u64, uncaptured: u64, figures: CardFigures) -> BriefCard {
    BriefCard {
        product: "P".into(),
        name: name.into(),
        m_leads: 4,
        l_leads: 3,
        qualified,
        uncaptured,
        figures,
    }
}

fn totals(m_leads: u64, qualified: u64) -> BriefTotals {
    BriefTotals {
        funnel: FunnelCounts { m_leads, l_leads: 6, qualified, visit: 0, booking: 0 },
        products: 1,
        spend: "9000".into(),
        per_qualified: Some("1500".into()),
    }
}

#[test]
fn a_brief_names_the_winner_and_ends_in_the_sums() {
    let cards = vec![
        brief_card("dear", 2, 0, figures(9, true)),
        brief_card("best", 3, 0, figures(5, true)),
        brief_card("tiny", 3, 0, figures(1, false)),
    ];
    let movers = vec![Mover { product: "P".into(), now: 6, before: Some(2) }];
    let lines = brief(&totals(8, 6), &cards, &movers);
    assert_eq!(lines[0].text, "P produced 6 qualified leads, up 4 on the last report.");
    assert_eq!(
        lines[1].text,
        "Best value: \"best\" (P) - 3 qualified at Rs 900 each vs Rs 1500 portfolio average."
    );
    assert_eq!(
        lines.last().unwrap().text,
        "Rs 9000 across 1 projects -> 6 CRM leads, 6 qualified (Rs 1500 per qualified)."
    );
}

#[test]
fn a_quiet_day_reads_quiet() {
    let lines = brief(&totals(2, 0), &vec![brief_card("a", 0, 2, figures(1, true))], &vec![]);
    assert_eq!(lines.len(), 2);
    // Missing leads come first, whatever the day.
    assert!(lines[0].text.starts_with("2 lead(s) filled your ad form"), "{:?}", lines);
    assert_eq!(
        lines[1].text,
        "Quiet day: Rs 9000 across 1 projects -> 6 CRM leads, none qualified yet."
    );
}

#[test]
fn the_best_cell_is_told_from_the_others() {
    assert!(judged(5, true, 1).enough && !judged(4, true, 1).enough && !judged(5, false, 1).enough);
    let few = vec![judged(5, true, 1), judged(3, true, 1), judged(u64::MAX, true, 1)];
    assert_eq!(rest_leads(&few, &vec![1, 0]), Some(8));
    assert_eq!(rest_leads(&few, &vec![1, 2]), None);
    let cell = |m_leads, enough, cost| Cell { m_leads, enough, cost };
    let (best, rest) = pool(&vec![cell(9, true, 50), cell(1, false, 1), cell(9, true, 20)]);
    assert_eq!(best, Some(2));
    let mut rest = rest;
    rest.sort();
    assert_eq!(rest, vec![0, 1]);
    let cross = |concentrated| CrossCard {
        name: "A".into(),
        targetings: 2,
        best: Some("Income".into()),
        best_cost: "20".into(),
        rest_leads: 10,
        rest_cost: "50".into(),
        concentrated,
    };
    assert_eq!(
        cross_reads(&vec![cross(false), cross(true), cross(true), cross(true)]),
        vec![
            "\"A\" earns leads at Rs 20 in Income vs Rs 50 elsewhere - concentrate it there.";
            2
        ]
    );
}

#[test]
fn earlier_reports_of_as_many_days_are_found() {
    let names: Vec<String> = ["2026-08-05", "2026-08-09", "2026-08-06", "2026-08-07"]
        .iter()
        .map(|n| n.to_string())
        .collect();
    assert_eq!(prior_dates(&names, "2026-08-07"), vec!["2026-08-06", "2026-08-05"]);
    assert!(is_report_file("creative-report-2026-08-01-to-2026-08-07.json"));
    assert!(!is_report_file("creative-report.json.tmp") && !is_report_file("report.json"));
    assert!(is_comparable("2026-08-01", "2026-08-07", 7));
    assert!(!is_comparable("2026-08-01", "2026-08-07", 1));
    assert!(!is_comparable("x", "2026-08-07", 7));
}
