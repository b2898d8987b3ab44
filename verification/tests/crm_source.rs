//! Descriptions of CRMs.

use moneyball_core::crm::presets::catalog;
use moneyball_core::crm::source::{
    expand, parse, records, resolve_ref, transform, PagingMode, TEMPLATE_TOML,
};
use moneyball_core::crm::status::status_lines;
use moneyball_core::crm::transform::{organic_contacts, transform as split_tickets};
use moneyball_core::error::Error;
use moneyball_core::json::Json;
use moneyball_core::provider::TextMap;

fn json(text: &str) -> Json {
    Json::parse(text).unwrap()
}

const SPEC: &str = r#"
name = "leadsquared"

[request]
url = "https://api-in21.leadsquared.com/v2/LeadManagement.svc/Leads.Get"
[request.headers]
"x-LSQ-AccessKey" = "env:LSQ_ACCESS"
[request.query]
fromDate = "{from_date}"

[paging]
mode = "page"
param = "pageIndex"

[map]
root = "Leads"
ad_id = "mx_Ad_Id"
stage = "ProspectStage"
delivery = "mx_Delivery_Time"
[map.stage_map]
"Site Visit" = "Visit"
"#;

#[test]
fn parses_full_spec() {
    let s = parse(SPEC).unwrap();
    assert_eq!(s.name, "leadsquared");
    assert_eq!(s.paging.mode, PagingMode::Page);
    assert_eq!(s.paging.start, 1);
    assert_eq!(s.map.stage_map.get("Site Visit").unwrap(), "Visit");
}

#[test]
fn template_toml_parses() {
    parse(TEMPLATE_TOML).unwrap();
}

#[test]
fn expand_replaces_known_vars_keeps_unknown() {
    let vars = TextMap::of1("from_date", "2026-07-01");
    assert_eq!(expand("{from_date}..{typo}", &vars), "2026-07-01..{typo}");
}

#[test]
fn resolve_ref_env_and_literal() {
    let none = TextMap::new();
    let env = TextMap::of1("MB_CRM_TEST_KEY", "k-123");
    assert_eq!(resolve_ref("env:MB_CRM_TEST_KEY", &none, &env).unwrap(), "k-123");
    assert!(resolve_ref("env:MB_CRM_TEST_KEY", &none, &none).is_err());
    assert_eq!(resolve_ref("plain", &none, &none).unwrap(), "plain");
}

#[test]
fn resolve_ref_secrets() {
    let none = TextMap::new();
    let stored = TextMap::of1("crm_key", "s-1");
    assert_eq!(resolve_ref("secret:crm_key", &stored, &none).unwrap(), "s-1");
    assert!(matches!(resolve_ref("secret:other", &stored, &none), Err(Error::Secrets(_))));
}

#[test]
fn transform_maps_stages_and_stringifies_ids() {
    let recs = vec![json(
        r#"{
            "mx_Ad_Id": 120211,
            "ProspectStage": "Site Visit",
            "mx_Delivery_Time": "2026-07-15T09:30:00+05:30"
        }"#,
    )];
    let spec = parse(SPEC).unwrap();
    let tickets = transform(&recs, &spec.map);
    assert_eq!(tickets[0].get("ad_id").unwrap().as_str(), Some("120211"));
    assert_eq!(tickets[0].get("stage").unwrap().as_str(), Some("Visit"));
    assert_eq!(
        tickets[0].get("delivery").unwrap().as_str(),
        Some("2026-07-15T09:30:00+05:30")
    );
}

#[test]
fn records_root_paths() {
    let resp = json(r#"{ "data": { "leads": [1, 2] } }"#);
    assert_eq!(records(&resp, "data.leads").unwrap().len(), 2);
    assert!(records(&resp, "data.nope").is_err());
    let arr = json("[1]");
    assert_eq!(records(&arr, "").unwrap().len(), 1);
}

#[test]
fn a_description_that_does_not_read_is_an_error() {
    assert!(matches!(parse("name = "), Err(Error::Config(t)) if t.starts_with("crm.toml: ")));
    assert!(parse("name = \"x\"").is_err());
    assert!(parse("name = 3\n[map]\nroot=\"\"\nad_id=\"a\"\nstage=\"s\"\ndelivery=\"d\"\n").is_err());
}

#[test]
fn tickets_without_an_ad_are_kept_as_contacts() {
    let mut spec = parse(SPEC).unwrap();
    spec.map.phone = "Phone".into();
    spec.map.email = "Mail".into();
    let recs = vec![
        json(r#"{"mx_Ad_Id": "1", "ProspectStage": "Hot", "mx_Delivery_Time": 5, "Phone": "9"}"#),
        json(r#"{"ProspectStage": "Hot", "mx_Delivery_Time": 5, "Phone": "98", "Mail": "a@b"}"#),
    ];
    let (tickets, organic) = split_tickets(&recs, &spec.map);
    assert_eq!((tickets.len(), organic), (1, 1));
    let contacts = organic_contacts(&recs, &spec.map);
    assert_eq!(contacts.len(), 1);
    assert_eq!(contacts[0].phone.as_deref(), Some("98"));
    assert_eq!(contacts[0].email.as_deref(), Some("a@b"));
}

#[test]
fn every_preset_renders_to_a_parseable_spec_with_no_placeholders() {
    for p in catalog() {
        let rendered = p.render();
        assert!(!rendered.contains("{secret:"), "{}: unresolved placeholder", p.id);
        let spec = match parse(&rendered) {
            Ok(s) => s,
            Err(e) => panic!("{}: {}", p.id, e.message()),
        };
        assert_eq!(spec.name, p.id);
        for s in &p.secrets {
            assert!(
                rendered.contains(&format!("secret:{}", p.secret_name(s))),
                "{}: secret ref {} missing",
                p.id,
                s.key
            );
        }
    }
}

#[test]
fn no_spec_points_at_connect() {
    let lines = status_lines(&None, &TextMap::new(), &vec![], &None).unwrap();
    assert!(lines[0].contains("none"));
    assert!(lines.last().unwrap().contains("crm connect"), "{:?}", lines);
}

#[test]
fn stale_crm_json_is_called_out_with_fetch_next() {
    let spec = "name = \"testcrm\"\n[map]\nroot=\"content\"\nad_id=\"a\"\nstage=\"s\"\ndelivery=\"d\"\n";
    let dates = vec![("2026-08-01".to_string(), true), ("2026-08-08".to_string(), false)];
    let crm = r#"[{"ad_id":"1","stage":"Contactable","delivery":1754000000}]"#;
    let lines =
        status_lines(&Some(spec.into()), &TextMap::new(), &dates, &Some(crm.into())).unwrap();
    let all = lines.join("\n");
    assert!(all.contains("snapshot 2026-08-01"), "{}", all);
    assert!(all.contains("STALE"), "{}", all);
    assert!(all.contains("crm fetch"), "{}", all);
}

#[test]
fn a_null_is_no_ad() {
    let text = "name = \"t\"\n[map]\nroot = \"\"\nad_id = \"ad\"\nstage = \"st\"\ndelivery = \"at\"\n";
    let spec = parse(text).unwrap();
    let recs = vec![json(r#"{"ad": null, "st": "Visit", "at": 1}"#)];
    let (tickets, dropped) = split_tickets(&recs, &spec.map);
    assert!(tickets.is_empty());
    assert_eq!(dropped, 1);
    assert_eq!(organic_contacts(&recs, &spec.map).len(), 0);
}

#[test]
fn presets_keep_all_else_as_it_is() {
    let all = catalog();
    let r = all[0].render();
    assert_eq!(r, all[0].toml.replace("{secret:token}", "secret:leadzump_token"));
    assert!(r.contains("{page}"));
    let r = all[1].render();
    assert!(r.contains("accessKey = \"secret:leadsquared_access_key\""));
    assert!(r.contains("secretKey = \"secret:leadsquared_secret_key\""));
    assert!(r.contains("{from_date}") && r.contains("{to_date}"));
}

#[test]
fn tables_may_be_written_as_lists() {
    let spec = parse(
        r#"
name = "t"
request = ["https://a.b", "POST", { h = "1" }]
paging = [{ page = {} }, "p", 2, "s", 50, "more"]
map = ["root", "ad", "st", "at", "f", { Hot = "Visit" }]
"#,
    )
    .unwrap();
    let r = spec.request.unwrap();
    assert_eq!((r.url.as_str(), r.method.as_str()), ("https://a.b", "POST"));
    assert_eq!(r.headers.get("h").unwrap(), "1");
    assert!(r.body.is_none());
    assert_eq!(spec.paging.mode, PagingMode::Page);
    assert_eq!((spec.paging.start, spec.paging.size), (2, 50));
    assert_eq!((spec.map.ad_id.as_str(), spec.map.delivery.as_str()), ("ad", "at"));
    assert_eq!(spec.map.stage_map.get("Hot").unwrap(), "Visit");
    assert!(parse("name = \"t\"\nmap = [\"root\", \"ad\"]\n").is_err());
}
