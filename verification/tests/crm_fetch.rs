//! Pages of records: which are kept, when the pages end, and where their tickets go.

use moneyball_core::crm::fetch::{
    accept_reply, build_request, fmt_elapsed, read_reply, request_in, request_vars, target_date,
    write_date, PROBE_DAYS, PROBE_SIZE,
};
use moneyball_core::crm::paging::{keep_records, should_stop, Pages};
use moneyball_core::crm::source::{parse, MapSpec, PagingMode};
use moneyball_core::error::Error;
use moneyball_core::json::Json;
use moneyball_core::provider::TextMap;

fn json(text: &str) -> Json {
    Json::parse(text).unwrap()
}

fn map_with(delivery: &str) -> MapSpec {
    MapSpec {
        root: "content".into(),
        ad_id: "adId.adId".into(),
        stage: "stage.name".into(),
        delivery: delivery.into(),
        funnel: String::new(),
        lead_id: String::new(),
        phone: String::new(),
        email: String::new(),
        stage_map: TextMap::new(),
    }
}

fn rec(delivery: &str) -> Json {
    json(&format!(
        r#"{{ "createdAt": {}, "adId": {{ "adId": "111" }}, "stage": {{ "name": "Fresh" }} }}"#,
        delivery
    ))
}

fn elapsed() {
    assert_eq!(fmt_elapsed(0), "0ms");
    assert_eq!(fmt_elapsed(340), "340ms");
    assert_eq!(fmt_elapsed(1_200), "1.2s");
    assert_eq!(fmt_elapsed(59_000), "59.0s");
    assert_eq!(fmt_elapsed(60_000), "1m00s");
    assert_eq!(fmt_elapsed(125_000), "2m05s");
}

#[test]
fn fetch_elapsed_uses_ms_seconds_and_minutes() {
    elapsed();
}

#[test]
fn paging_elapsed_uses_ms_seconds_and_minutes() {
    elapsed();
}

fn drops_older() {
    let map = map_with("createdAt");
    let from = 1_700_000_000i64;
    let batch = vec![
        rec(&from.to_string()),
        rec(&(from - 1).to_string()),
        rec(&(from + 60).to_string()),
    ];
    let kept = keep_records(&batch, &map, from);
    assert_eq!(kept.len(), 2, "exactly the boundary + newer survive");
    assert_eq!(kept[0].get("createdAt").unwrap().as_u64(), Some(from as u64));
    assert_eq!(kept[1].get("createdAt").unwrap().as_u64(), Some(from as u64 + 60));
}

#[test]
fn fetch_keep_records_drops_older_than_window_keeps_others() {
    drops_older();
}

#[test]
fn paging_keep_records_drops_older_than_window_keeps_others() {
    drops_older();
}

fn keeps_unparseable() {
    let map = map_with("createdAt");
    let batch = vec![rec("\"not-a-date\""), rec("null")];
    let kept = keep_records(&batch, &map, 1_700_000_000);
    assert_eq!(kept.len(), 2, "unparseable records pass through");
}

#[test]
fn fetch_keep_records_keeps_unparseable_for_validator_to_surface() {
    keeps_unparseable();
}

#[test]
fn paging_keep_records_keeps_unparseable_for_validator_to_surface() {
    keeps_unparseable();
}

fn walks_dotted() {
    let mut map = map_with("meta.delivery");
    map.delivery = "meta.delivery".into();
    let batch = vec![json(r#"{"meta": {"delivery": 1700000000}}"#)];
    let kept = keep_records(&batch, &map, 1_700_000_000);
    assert_eq!(kept.len(), 1);
}

#[test]
fn fetch_keep_records_walks_dotted_path() {
    walks_dotted();
}

#[test]
fn paging_keep_records_walks_dotted_path() {
    walks_dotted();
}

fn respects_total() {
    assert!(should_stop(100, Some(100), 50, 50, 200, 200, PagingMode::Page));
    assert!(!should_stop(99, Some(100), 50, 50, 200, 200, PagingMode::Page));
}

#[test]
fn fetch_should_stop_respects_total_elements_first() {
    respects_total();
}

#[test]
fn paging_should_stop_respects_total_elements_first() {
    respects_total();
}

fn cuts_over() {
    // Full page, zero in-window, but we've seen in-window before.
    assert!(should_stop(400, None, 200, 0, 200, 200, PagingMode::Page));
    // Same shape, but the FIRST page is empty - don't cut, keep paging.
    assert!(!should_stop(0, None, 0, 0, 200, 200, PagingMode::Page));
}

#[test]
fn fetch_should_stop_cuts_over_after_paging_past_window() {
    cuts_over();
}

#[test]
fn paging_should_stop_cuts_over_after_paging_past_window() {
    cuts_over();
}

fn breaks_on_short() {
    // Short page (last page of the set).
    assert!(should_stop(150, None, 150, 150, 50, 200, PagingMode::Page));
    // Single-shot mode.
    assert!(should_stop(200, None, 200, 200, 200, 200, PagingMode::Single));
}

#[test]
fn fetch_should_stop_breaks_on_short_page_or_none_mode() {
    breaks_on_short();
}

#[test]
fn paging_should_stop_breaks_on_short_page_or_none_mode() {
    breaks_on_short();
}

fn continues() {
    // Normal in-flight page: keep going.
    assert!(!should_stop(200, Some(1000), 200, 200, 200, 200, PagingMode::Page));
}

#[test]
fn fetch_should_stop_continues_when_full_page_with_in_window_records() {
    continues();
}

#[test]
fn paging_should_stop_continues_when_full_page_with_in_window_records() {
    continues();
}

const PAGED: &str = r#"
name = "p"
[request]
url = "https://crm.example/leads?d={from_date}"
method = "post"
body = '{"page": {page}}'
[request.headers]
"X-Key" = "secret:p_key"
[request.query]
to = "{to_date}"
[paging]
mode = "page"
param = "pageNo"
size_param = "size"
size = 2
[map]
root = "content"
ad_id = "a"
stage = "s"
delivery = "d"
"#;

#[test]
fn pages_are_asked_for_until_the_total_is_there() {
    let spec = parse(PAGED).unwrap();
    let mut pages = Pages::new(spec.paging.start);
    let first = json(r#"{"totalElements": 3, "content": [{"d": 100}, {"d": 1}]}"#);
    assert!(!pages.step(&first, &spec, 50).unwrap());
    let second = json(r#"{"content": [{"d": 200}]}"#);
    assert!(pages.step(&second, &spec, 50).unwrap());
    assert_eq!(pages.records.len(), 2);
    assert_eq!(pages.pages, 2);
    assert!(pages.step(&json("{}"), &spec, 50).is_err());
}

#[test]
fn a_request_is_filled_with_days_pages_and_secrets() {
    let spec = parse(PAGED).unwrap();
    let day = 739_800;
    let vars = request_vars(day, 7, 3, 2).unwrap();
    let stored = TextMap::of1("p_key", "k-1");
    let req = build_request(
        request_in(&spec).unwrap(),
        &spec.paging,
        &vars,
        &stored,
        &TextMap::new(),
    )
    .unwrap();
    assert_eq!(req.method, "POST");
    let from = vars.get("from_date").unwrap().clone();
    assert_eq!(req.url, format!("https://crm.example/leads?d={}", from));
    assert_eq!(req.headers[0], ("X-Key".to_string(), "k-1".to_string()));
    assert_eq!(req.headers[1], ("Content-Type".to_string(), "application/json".to_string()));
    assert_eq!(req.body.as_deref(), Some(r#"{"page": 3}"#));
    assert!(req.query.contains(&("pageNo".to_string(), "3".to_string())));
    assert!(req.query.contains(&("size".to_string(), "2".to_string())));
    // A secret that is not stored is an error.
    assert!(build_request(
        request_in(&spec).unwrap(),
        &spec.paging,
        &vars,
        &TextMap::new(),
        &TextMap::new(),
    )
    .is_err());
}

#[test]
fn days_of_a_request_are_dates() {
    // 2026-07-16 is the day 739813.
    let vars = request_vars(739_813, PROBE_DAYS, 1, PROBE_SIZE).unwrap();
    assert_eq!(vars.get("from_date").unwrap(), "2026-06-18");
    assert_eq!(vars.get("to_date").unwrap(), "2026-07-16");
    assert_eq!(vars.get("page").unwrap(), "1");
    assert_eq!(vars.get("page_size").unwrap(), "50");
    assert!(request_vars(i32::MAX, 7, 1, 1).is_none());
}

#[test]
fn a_description_for_files_has_no_request() {
    let spec = parse("name = \"f\"\n[map]\nroot=\"\"\nad_id=\"a\"\nstage=\"s\"\ndelivery=\"d\"\n")
        .unwrap();
    assert!(matches!(request_in(&spec), Err(Error::Config(t)) if t.contains("CSV-only")));
}

#[test]
fn replies_are_accepted_or_refused() {
    assert!(accept_reply(json("{}"), 200, "200 OK").is_ok());
    assert!(accept_reply(json(r#"{"m": 1}"#), 401, "401 Unauthorized").is_err());
    let raw: Vec<u8> = b"[1, 2]".to_vec();
    assert_eq!(read_reply(&raw, 200, "200 OK").unwrap().as_array().unwrap().len(), 2);
    assert!(read_reply(&b"<html>".to_vec(), 200, "200 OK").is_err());
}

#[test]
fn tickets_join_the_newest_snapshot_with_ads() {
    let dates = vec![
        ("2026-08-01".to_string(), true),
        ("2026-08-02".to_string(), true),
        ("2026-08-03".to_string(), false),
    ];
    assert_eq!(target_date("2026-08-04", true, &dates).unwrap(), "2026-08-04");
    assert_eq!(target_date("2026-08-04", false, &dates).unwrap(), "2026-08-02");
    assert!(target_date("2026-08-04", false, &vec![]).is_err());
    // Tickets that fail the check go nowhere.
    assert!(write_date(false, "2026-08-04", true, &dates).unwrap().is_none());
    assert_eq!(
        write_date(true, "2026-08-04", false, &dates).unwrap().as_deref(),
        Some("2026-08-02")
    );
    assert!(write_date(true, "2026-08-04", false, &vec![]).is_err());
}
