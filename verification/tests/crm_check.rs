//! Checks of an export of tickets.

use moneyball_core::crm::check::{check, join_counts};
use moneyball_core::crm::{is_empty, milestones, parse_epoch, ticket_ad_id};
use moneyball_core::json::Json;
use moneyball_core::snapshot::{read_ads_daily, Snapshot};

fn json(text: &str) -> Json {
    Json::parse(text).unwrap()
}

fn ticket(ad_id: &str, stage: &str, delivery: &str) -> String {
    format!(r#"{{ "ad_id": "{}", "stage": "{}", "delivery": {} }}"#, ad_id, stage, delivery)
}

fn snap_with_ads(ids: &[&str]) -> Snapshot {
    let rows: Vec<String> = ids.iter().map(|id| format!(r#"{{ "ad_id": "{}" }}"#, id)).collect();
    Snapshot {
        path: String::new(),
        date: "2026-07-16".into(),
        ads_daily: read_ads_daily(&json(&format!("[{}]", rows.join(",")))).unwrap(),
        adsets: json("[]"),
        creatives: None,
        crm: json("{}"),
        regions: json("[]"),
        changes: json("[]"),
        campaigns: json("[]"),
    }
}

/// The share of tickets that join, as the check shows it.
fn share(crm: &Json, snap: &Snapshot) -> String {
    let (joined, total) = join_counts(crm, snap);
    format!("{:.0}", joined as f64 / total as f64 * 100.0)
}

#[test]
fn valid_flat_array_passes() {
    let crm = json(&format!(
        "[{},{}]",
        ticket("111", "Contactable", "1752624000"),
        ticket("222", "Booking", "\"2026-07-15T09:30:00+05:30\"")
    ));
    let r = check(&crm, &vec![], None, "");
    assert!(r.passed(), "errors: {:?}", r.errors);
    assert_eq!(r.tickets, 2);
}

#[test]
fn missing_required_fields_error() {
    let crm = json(r#"[{ "stage": "Visit" }]"#);
    let r = check(&crm, &vec![], None, "");
    assert!(!r.passed());
    assert!(r.errors[0].contains("ad_id on 1"));
    assert!(r.errors[0].contains("delivery on 1"));
}

#[test]
fn legacy_map_shape_accepted() {
    let crm = json(
        r#"{
            "camp1": { "tickets": [
                { "adId": { "adId": "111" }, "stage": "Visit", "delivery": 1752624000 }
            ]}
        }"#,
    );
    let r = check(&crm, &vec![], None, "");
    assert!(r.passed(), "errors: {:?}", r.errors);
    assert_eq!(r.tickets, 1);
}

#[test]
fn unknown_stage_warns_not_fails() {
    let crm = json(&format!("[{}]", ticket("111", "Hot Lead", "1752624000")));
    let r = check(&crm, &vec![], None, "");
    assert!(r.passed());
    assert!(r.warnings.iter().any(|w| w.contains("Hot Lead")));
}

#[test]
fn custom_stage_list_suppresses_warning() {
    let crm = json(&format!("[{}]", ticket("111", "Hot Lead", "1752624000")));
    let stages = vec!["Hot Lead".to_string()];
    let r = check(&crm, &stages, None, "");
    assert!(r.passed() && r.warnings.is_empty());
}

#[test]
fn non_array_shape_errors() {
    let r = check(&Json::Text("nope".into()), &vec![], None, "");
    assert!(!r.passed());
    assert!(r.errors[0].contains("array of ticket objects"));
}

#[test]
fn zero_join_rate_is_an_error() {
    let crm = json(&format!("[{}]", ticket("999", "Visit", "1752624000")));
    let snap = snap_with_ads(&["111", "222"]);
    let r = check(&crm, &vec![], Some(&snap), &share(&crm, &snap));
    assert!(!r.passed());
    assert!(r.errors.iter().any(|e| e.contains("0/1")));
}

#[test]
fn full_join_rate_passes() {
    let crm = json(&format!("[{}]", ticket("111", "Visit", "1752624000")));
    let snap = snap_with_ads(&["111"]);
    let r = check(&crm, &vec![], Some(&snap), &share(&crm, &snap));
    assert!(r.passed(), "errors: {:?}", r.errors);
    assert!(r.info.iter().any(|i| i.contains("100%")));
}

#[test]
fn iso_and_epoch_delivery_both_parse() {
    assert_eq!(parse_epoch(&json("1752624000")), Some(1752624000));
    assert_eq!(parse_epoch(&Json::Text("1752624000".into())), Some(1752624000));
    assert!(parse_epoch(&Json::Text("2026-07-15T09:30:00+05:30".into())).is_some());
    assert!(parse_epoch(&Json::Text("not a date".into())).is_none());
}

#[test]
fn zoned_times_are_moved_to_utc() {
    assert_eq!(parse_epoch(&Json::Text("1970-01-01T05:30:00+05:30".into())), Some(0));
    assert_eq!(parse_epoch(&Json::Text("1970-01-02T00:00:00Z".into())), Some(86400));
    // An offset counts with a colon and without one.
    let of = |t: &str| parse_epoch(&Json::Text(t.into()));
    assert_eq!(of("2026-07-15T09:30:00+0530"), Some(1784088000));
    assert_eq!(of("2026-07-15T09:30:00+05:30"), Some(1784088000));
    assert_eq!(of("2026-07-15T09:30:00.250+0530"), Some(1784088000));
}

#[test]
fn milestones_follow_the_stage_and_the_funnel() {
    assert_eq!(milestones("Contactable", ""), (true, false, false));
    assert_eq!(milestones("Visit", ""), (true, true, false));
    assert_eq!(milestones("Booking", ""), (true, true, true));
    assert_eq!(milestones("Lost", "WON"), (false, false, true));
    assert_eq!(milestones("Lost", ""), (false, false, false));
}

#[test]
fn an_export_of_nothing_is_empty() {
    assert!(is_empty(&json("{}")) && is_empty(&json("[]")) && is_empty(&Json::Null));
    assert!(!is_empty(&json("[1]")));
    assert_eq!(ticket_ad_id(&json(r#"{"adId": {"adId": "7"}}"#)).as_deref(), Some("7"));
}
