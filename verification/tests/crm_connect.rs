//! Connecting a CRM: what a curl command says, and how drafts of a description are judged.

use moneyball_core::crm::connect::{
    draft_step, dry_run, extract_toml, percent_decode, truncated_json, ConnectInput, DraftStep,
    SAMPLE_CAP_BYTES,
};
use moneyball_core::error::Error;
use moneyball_core::json::Json;

#[test]
fn from_curl_parses_post_with_headers_and_body() {
    let c = r#"curl -X POST 'https://x.ai/api/q?a=1' -H 'authorization: tok' \
            -H "content-type: application/json" --data '{"page": 0}'"#;
    let i = ConnectInput::from_curl("x".into(), c).unwrap();
    assert_eq!(i.url, "https://x.ai/api/q");
    assert_eq!(i.query, vec![("a".to_string(), "1".to_string())]);
    assert_eq!(i.method, "POST");
    assert_eq!(i.body.as_deref(), Some(r#"{"page": 0}"#));
    assert_eq!(i.headers[0], ("authorization".into(), "tok".into()));
}

#[test]
fn from_curl_splits_and_decodes_query_credentials() {
    let c = "curl 'https://api.example.com/Leads.Get?accessKey=u%24r&secretKey=abc+def&fromDate=2026-01-01'";
    let i = ConnectInput::from_curl("ls".into(), c).unwrap();
    assert_eq!(i.url, "https://api.example.com/Leads.Get");
    assert_eq!(
        i.query,
        vec![
            ("accessKey".to_string(), "u$r".to_string()),
            ("secretKey".to_string(), "abc def".to_string()),
            ("fromDate".to_string(), "2026-01-01".to_string()),
        ]
    );
}

#[test]
fn from_curl_defaults_get_and_requires_url() {
    let i = ConnectInput::from_curl("x".into(), "curl https://a.b/leads").unwrap();
    assert_eq!(i.method, "GET");
    assert!(ConnectInput::from_curl("x".into(), "curl -H 'a: b'").is_err());
}

#[test]
fn extract_toml_handles_fences_and_prose() {
    let fenced = "Here you go:\n```toml\nname = \"x\"\n```\nnotes";
    assert_eq!(extract_toml(fenced), "name = \"x\"");
    let bare = "name = \"x\"\n[map]\nad_id = \"a\"";
    assert_eq!(extract_toml(bare), bare);
    let prose = "Sure! The spec:\nname = \"x\"";
    assert_eq!(extract_toml(prose), "name = \"x\"");
}

#[test]
fn truncated_json_cuts_large_samples() {
    let big = Json::Text("x".repeat(SAMPLE_CAP_BYTES * 2));
    let s = truncated_json(&big);
    assert!(s.len() < SAMPLE_CAP_BYTES + 32);
    assert!(s.ends_with("(truncated)"));
}

const SPEC: &str = r#"
name = "t"
[map]
root = "Leads"
ad_id = "aid"
stage = "st"
delivery = "at"
[map.stage_map]
"Hot" = "Contactable"
"#;

#[test]
fn dry_run_transforms_and_checks_sample() {
    let sample =
        Json::parse(r#"{ "Leads": [ { "aid": "111", "st": "Hot", "at": 1752537600 } ]}"#).unwrap();
    let (n, report) = dry_run(SPEC, &sample, &vec![], None, "").unwrap();
    assert_eq!(n, 1);
    assert!(report.passed(), "errors: {:?}", report.errors);
}

#[test]
fn dry_run_refuses_what_does_not_read() {
    let sample = Json::parse("{}").unwrap();
    assert!(dry_run("name = ", &sample, &vec![], None, "").is_err());
    assert!(dry_run(SPEC, &sample, &vec![], None, "").is_err());
}

#[test]
fn percent_escapes_become_their_bytes() {
    assert_eq!(percent_decode("a%20b"), "a b");
    assert_eq!(percent_decode("%E2%82%B9"), "\u{20B9}");
    assert_eq!(percent_decode("plain"), "plain");
    // A broken escape stays as it is.
    assert_eq!(percent_decode("100%"), "100%");
    assert_eq!(percent_decode("%zz"), "%zz");
}

#[test]
fn a_draft_is_asked_for_twice_at_most() {
    let input = ConnectInput::from_curl("x".into(), "curl https://a.b/leads").unwrap();
    match draft_step(&input, "{}", 1, SPEC) {
        DraftStep::Done(t) => assert!(t.starts_with("name = \"t\"")),
        other => panic!("{:?}", other),
    }
    match draft_step(&input, "{}", 1, "name = ") {
        DraftStep::Again(p) => {
            assert!(p.contains("Your previous draft was rejected: "), "{}", p);
            assert!(p.ends_with(". Fix it."), "{}", p);
        }
        other => panic!("{:?}", other),
    }
    assert!(matches!(draft_step(&input, "{}", 2, "name = "), DraftStep::Failed(Error::Llm(_))));
}

#[test]
fn flags_that_are_not_known_are_passed_over() {
    let i = ConnectInput::from_curl("x".into(), "curl https://a.b/q --data-binary hi").unwrap();
    assert_eq!(i.url, "https://a.b/q");
    assert!(i.body.is_none());
    assert_eq!(i.method, "GET");
}

#[test]
fn prose_ahead_of_the_first_key_or_table_is_dropped() {
    assert_eq!(extract_toml("Here is the renamed spec:\nname = \"x\""), "name = \"x\"");
    assert_eq!(extract_toml("The username:\n[request]\nurl = \"u\""), "[request]\nurl = \"u\"");
    assert_eq!(extract_toml("So:\n[[ a.b ]]\nc = 1"), "[[ a.b ]]\nc = 1");
    assert_eq!(extract_toml("So:\n\"a b\" = 1"), "\"a b\" = 1");
    assert_eq!(extract_toml("So:\n'a' = 1"), "'a' = 1");
    assert_eq!(extract_toml("a name=1"), "name=1");
    assert_eq!(extract_toml("Renamed as asked: name = \"x\"\n[map]"), "name = \"x\"\n[map]");
    assert_eq!(extract_toml("no name here"), "name here");
    assert_eq!(extract_toml("nothing here"), "nothing here");
}

#[test]
fn of_headers_with_one_name_the_last_one_stays() {
    let c = "curl 'https://a.b/q?k=1&k=2&j=3' -H 'x: old' -H 'y: z' -H 'x: new'";
    let i = ConnectInput::from_curl("x".into(), c).unwrap();
    assert_eq!(i.headers.len(), 3);
    let r = i.request_spec();
    assert_eq!(r.headers.pairs.len(), 2);
    assert_eq!(r.headers.get("x").unwrap(), "new");
    assert_eq!(r.headers.get("y").unwrap(), "z");
    assert_eq!(r.query.pairs.len(), 2);
    assert_eq!(r.query.get("k").unwrap(), "2");
}
