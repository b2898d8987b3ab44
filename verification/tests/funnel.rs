//! Funnels by campaign, ad set and ad, and the summary of the products.

use moneyball_core::brief::history::{load_history, trend_rows_for, trend_text};
use moneyball_core::brief::print::{
    best_price, comma, feasibility, product_row, total_spend, ProductFigures, TotalFigures,
};
use moneyball_core::brief::{best_rpq, compute_product, load_open_debt, ProductTotals};
use moneyball_core::funnel::print::{funnel_row, kill_place, table, FunnelMoney, FunnelRow};
use moneyball_core::funnel::{check_product, compute, total_leads, By, FunnelGroup};
use moneyball_core::json::Json;
use moneyball_core::rank::rank;
use moneyball_core::snapshot::{read_ads_daily, Snapshot};
use moneyball_core::window::{ist_midnight_epoch, lead_values, window, LeadValues};

fn json(text: &str) -> Json {
    Json::parse(text).unwrap()
}

fn number(s: &str) -> f64 {
    s.trim().parse().unwrap_or(0.0)
}

/// The leads of each row.
fn leads(s: &Snapshot) -> Vec<u64> {
    s.ads_daily
        .iter()
        .map(|r| match lead_values(&r.actions) {
            LeadValues::One(v) => number(&v).round() as u64,
            LeadValues::Sum(v) => v.iter().map(|x| number(x)).sum::<f64>().round() as u64,
        })
        .collect()
}

fn spend(s: &Snapshot, g: &FunnelGroup) -> f64 {
    g.rows.iter().map(|i| number(&s.ads_daily[*i].spend)).sum()
}

/// The groups, the one on which most is spent first.
fn groups(s: &Snapshot, by: By) -> Vec<FunnelGroup> {
    let all = compute(s, "P", 7, by, &leads(s)).unwrap();
    let keys: Vec<Vec<u64>> = all.iter().map(|g| vec![spend(s, g).round() as u64]).collect();
    let order = rank(&keys);
    let mut slots: Vec<Option<FunnelGroup>> = all.into_iter().map(Some).collect();
    order.into_iter().map(|i| slots[i].take().unwrap()).collect()
}

fn snap() -> Snapshot {
    let ads = json(
        r#"[
            { "campaign_id": "c1", "campaign_name": "Camp One", "adset_id": "s1",
              "adset_name": "Set One", "ad_id": "a1", "ad_name": "Ad One",
              "spend": "9000", "date_start": "2026-07-14", "date_stop": "2026-07-14",
              "_product": "P",
              "actions": [{"action_type": "lead", "value": "4"}] },
            { "campaign_id": "c1", "campaign_name": "Camp One", "adset_id": "s2",
              "adset_name": "Set Two", "ad_id": "a2", "ad_name": "Ad Two",
              "spend": "1000", "date_start": "2026-07-14", "date_stop": "2026-07-14",
              "_product": "P",
              "actions": [] },
            { "campaign_id": "c9", "campaign_name": "Other", "adset_id": "s9",
              "adset_name": "S9", "ad_id": "a9", "ad_name": "A9",
              "spend": "500", "date_start": "2026-07-14", "date_stop": "2026-07-14",
              "_product": "OTHER", "actions": [] }
        ]"#,
    );
    // 2026-07-14 ~noon IST as epoch (inside the 7d window before 07-16).
    let ep = ist_midnight_epoch(739_811) + 12 * 3600;
    let crm = json(&format!(
        r#"[
            {{ "ad_id": "a1", "stage": "Contactable", "delivery": {ep} }},
            {{ "ad_id": "a1", "stage": "Visit", "delivery": {ep} }},
            {{ "ad_id": "a2", "stage": "Lost", "delivery": {ep} }},
            {{ "ad_id": "a9", "stage": "Booking", "delivery": {ep} }},
            {{ "ad_id": "a1", "stage": "Booking", "delivery": 1 }}
        ]"#
    ));
    Snapshot {
        path: String::new(),
        date: "2026-07-16".into(),
        ads_daily: read_ads_daily(&ads).unwrap(),
        adsets: json(r#"{ "s1": { "learning_stage_info": { "status": "LEARNING" } } }"#),
        creatives: None,
        crm,
        regions: json("[]"),
        changes: json("[]"),
        campaigns: json("[]"),
    }
}

#[test]
fn aggregates_by_adset_with_crm_join() {
    let rows = groups(&snap(), By::Adset);
    assert_eq!(rows.len(), 2);
    // Sorted by spend desc: s1 first.
    assert_eq!(rows[0].id, "s1");
    assert_eq!(rows[0].m, 4);
    assert_eq!((rows[0].l, rows[0].q, rows[0].v), (2, 2, 1));
    assert_eq!(rows[0].learning, "LEARNING");
    // a9's Booking belongs to another product; a1's epoch-1 ticket is
    // outside the window - neither may leak in.
    assert_eq!(rows[1].id, "s2");
    assert_eq!((rows[1].l, rows[1].q), (1, 0));
}

#[test]
fn campaign_level_merges_adsets() {
    let s = snap();
    let rows = groups(&s, By::Campaign);
    assert_eq!(rows.len(), 1);
    assert_eq!(rows[0].id, "c1");
    assert_eq!(spend(&s, &rows[0]) as u64, 10000);
    assert_eq!((rows[0].l, rows[0].q), (3, 2));
    assert_eq!(rows[0].learning, "-");
}

#[test]
fn table_renders_header_and_rows() {
    let s = snap();
    let rows: Vec<FunnelRow> = groups(&s, By::Adset)
        .into_iter()
        .map(|g| FunnelRow {
            spend: spend(&s, &g).round() as u64,
            id: g.id,
            name: g.name,
            m: g.m,
            l: g.l,
            q: g.q,
            v: g.v,
            b: g.b,
            cpl: None,
            rs_per_q: Some(4500),
            l_to_q: Some("100.0".into()),
            kill_mult: "3.6".into(),
            kill: false,
            sufficient: true,
            immature: g.immature,
            learning: g.learning,
        })
        .collect();
    let t = table(&rows);
    assert!(t.starts_with("id"));
    assert!(t.contains("Set One"));
    assert!(!table(&vec![]).contains("id"));
}

#[test]
fn windows_end_the_day_before() {
    let w = window("2026-07-16", 7).unwrap();
    assert_eq!((w.since.as_str(), w.until.as_str()), ("2026-07-09", "2026-07-15"));
    assert_eq!(w.to - w.from, 7 * 86400);
    assert_eq!(w.to - w.lag, 72 * 3600);
    // 2026-07-16 begins at 18:30 UTC of the day before.
    assert_eq!(w.to, 1_784_140_200);
    assert!(window("no date", 7).is_none());
}

#[test]
fn lead_actions_count_by_their_precedence() {
    let both = json(
        r#"[{"action_type": "lead", "value": "4"},
            {"action_type": "onsite_conversion.lead_grouped", "value": "3"}]"#,
    );
    assert!(matches!(lead_values(both.as_array().unwrap()), LeadValues::One(v) if v == "3"));
    let other = json(
        r#"[{"action_type": "my_lead_a", "value": "1"}, {"action_type": "my_lead_b", "value": "2"},
            {"action_type": "click", "value": "9"}]"#,
    );
    assert!(matches!(lead_values(other.as_array().unwrap()), LeadValues::Sum(v) if v == ["1", "2"]));
}

#[test]
fn levels_are_named() {
    assert_eq!(By::parse("campaign").unwrap(), By::Campaign);
    assert_eq!(By::Ad.name(), "ad");
    assert!(By::parse("galaxy").is_err());
    assert!(check_product("P", &vec!["P".to_string()]).is_ok());
    assert!(check_product("X", &vec!["P".to_string()]).is_err());
    assert_eq!(total_leads(&vec![1, 2]), Some(3));
    assert_eq!(total_leads(&vec![u64::MAX, 1]), None);
}

#[test]
fn a_product_is_summed_up() {
    let s = snap();
    let t = compute_product(&s, "P", &leads(&s)).unwrap();
    assert_eq!((t.m7d, t.l7d, t.q7d), (4, 3, 2));
    assert_eq!(best_rpq(&vec![None, Some(5), Some(3)]), Some(3));
    assert_eq!(best_rpq(&vec![None]), None);
}

#[test]
fn history_and_debt_are_read() {
    let raw = "product,date,qualified\nP,2026-07-01,1.0\nQ,2026-07-02,9.9\nP,2026-07-03,2.5\n";
    let h = load_history(raw);
    assert_eq!(h.len(), 3);
    let parts = trend_rows_for(&h, "P");
    assert_eq!(parts.len(), 2, "{:?}", parts);
    assert!(!trend_text(&parts).is_empty());
    let debt = load_open_debt(
        r#"{"items": {"a": {"status": "open"}, "b": {"status": "cleared"}, "c": {}}}"#,
    );
    assert_eq!(debt, vec!["a", "c"]);
    assert!(load_open_debt("junk").is_empty());
}

#[test]
fn numbers_are_grouped_by_thousands() {
    assert_eq!(comma(0), "0");
    assert_eq!(comma(1234567), "1,234,567");
    assert_eq!(comma(-1234), "-1,234");
    assert_eq!(comma(i64::MAX), "9,223,372,036,854,775,807");
}

fn group(m: u64, l: u64, q: u64) -> FunnelGroup {
    FunnelGroup {
        id: "g".into(),
        name: "G".into(),
        rows: vec![],
        m,
        l,
        q,
        v: 0,
        b: 0,
        immature: false,
        learning: "-".into(),
    }
}

fn money(over_table: bool, spent_enough: bool) -> FunnelMoney {
    FunnelMoney {
        spend: 900,
        cpl: 300,
        rs_per_q: 450,
        l_to_q: "50".into(),
        kill_mult: "3.6".into(),
        over_table,
        spent_enough,
    }
}

#[test]
fn rows_are_judged_by_their_counts() {
    let r = funnel_row(group(3, 2, 2), money(true, true));
    assert_eq!((r.cpl, r.rs_per_q, r.l_to_q.as_deref()), (Some(300), Some(450), Some("50")));
    assert!(r.kill && r.sufficient);
    let r = funnel_row(group(2, 3, 3), money(true, true));
    assert!(!r.kill && !r.sufficient);
    let r = funnel_row(group(0, 0, 0), money(false, true));
    assert!((r.cpl, r.rs_per_q, r.l_to_q.is_none()) == (None, None, true) && !r.kill);
    assert!(!funnel_row(group(3, 2, 2), money(true, false)).sufficient);
    assert_eq!((kill_place(0), kill_place(2), kill_place(3)), (Some(0), Some(2), None));
}

#[test]
fn goals_are_held_against_what_is_spent() {
    let row = |l7d, q7d| {
        let t = ProductTotals { rows: vec![], m7d: 9, l7d, q7d };
        let f = ProductFigures {
            spend_per_day: 700,
            q_per_day: "0.29".into(),
            rs_per_q: 2450,
            l_to_q: "50.0".into(),
            goal: "10".into(),
            gap: "9.7".into(),
            trend: String::new(),
        };
        product_row("P".into(), &t, f)
    };
    let total = || TotalFigures {
        q_per_day: "0.3".into(),
        goals: "20".into(),
        cur_rpq: 2450,
        at_cur: (49_000, "35.0".into()),
        at_best: (48_000, "34.3".into()),
    };
    let rows = vec![row(4, 2), row(0, 0)];
    assert_eq!((rows[0].rs_per_q, rows[0].l_to_q.as_deref()), (Some(2450), Some("50.0")));
    assert!(rows[1].rs_per_q.is_none() && rows[1].l_to_q.is_none());
    assert_eq!(total_spend(&rows), Some(1400));
    assert_eq!(best_price(&rows), Some(2450));
    let f = feasibility(&rows, 1400, total(), vec![]);
    assert_eq!((f.cur_rpq, f.tot_spend_per_day, f.best_rpq), (2450, 1400, Some(2450)));
    assert_eq!(f.required_at_cur, Some((49_000, "35.0".to_string())));
    assert_eq!(f.required_at_best, Some((48_000, "34.3".to_string())));
    let none = feasibility(&vec![row(1, 0)], 700, total(), vec![]);
    assert_eq!((none.cur_rpq, none.required_at_cur, none.required_at_best), (0, None, None));
}
