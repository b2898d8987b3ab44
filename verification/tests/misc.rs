//! Providers, products, texts, sessions, secrets and files.

use moneyball_core::agent::Item;
use moneyball_core::config::{
    join_path, resolve_data_root, root_in_config, AppConfig, WorkspaceConfig,
};
use moneyball_core::crm::fetch::spec_path;
use moneyball_core::dates::{earlier, order_newest, show_minute, show_second, show_stamp, Moment};
use moneyball_core::error::Error;
use moneyball_core::json::Json;
use moneyball_core::logo::LOGO;
use moneyball_core::meta::{account_id_for_storage, list_ad_accounts, parse_error, validate_token};
use moneyball_core::product::{resolve_product, Product};
use moneyball_core::provider::{
    built_in_presets, models_for, ModelProviderInfo, TextMap, WireApi,
};
use moneyball_core::schema::{
    contacts_text, creative_json, leads_text, read_contacts, read_creative_row, read_leads,
    ContactRow, CreativeRow, CrmContactsFile, LeadRow, LeadsFile,
};
use moneyball_core::secrets::{
    auth_text, clear_crm_key, clear_llm_key, clear_meta_token, load_crm_key, load_file,
    load_llm_key, load_meta_token, store_crm_key, store_llm_key, store_meta_token,
};
use moneyball_core::session::{
    fmt_meta_line, header_line, item_line, latest_id, list, make_session_id, parse_session, seed,
    SessionMeta,
};
use moneyball_core::snapshot::{list_dates, load, start, Snapshot, SnapshotFile};
use moneyball_core::strs::{
    contains, decimal_int, ends_with, join, lines, parse_i64, parse_u64, repeat, replace, split,
    split_once, trim,
};
use moneyball_core::text::{byte_count, char_width, truncate_chars, truncate_marked};
use moneyball_core::tools::{brief_tool, funnel_tool};

fn json(text: &str) -> Json {
    Json::parse(text).unwrap()
}

#[test]
fn openai_preset_uses_responses() {
    let p = ModelProviderInfo::openai();
    assert_eq!(p.wire_api, WireApi::Responses);
    assert_eq!(p.base_url, "https://api.openai.com/v1");
    assert_eq!(p.env_key.as_deref(), Some("OPENAI_API_KEY"));
}

#[test]
fn minimax_preset_uses_messages() {
    let p = ModelProviderInfo::minimax();
    assert_eq!(p.wire_api, WireApi::Messages);
    let v = p.http_headers.as_ref().unwrap();
    assert_eq!(v.get("anthropic-version").unwrap(), "2023-06-01");
}

#[test]
fn api_key_falls_back_to_env_when_keychain_empty() {
    let p = ModelProviderInfo::openai();
    // Nothing is stored and the variable is unset.
    assert!(p.api_key(None, None).is_none());
}

#[test]
fn api_key_uses_env_when_set() {
    let p = ModelProviderInfo::openai();
    assert_eq!(p.api_key(None, Some("sk-test-abc".into())).as_deref(), Some("sk-test-abc"));
    // What is stored comes first.
    assert_eq!(p.api_key(Some("a".into()), Some("b".into())).as_deref(), Some("a"));
}

#[test]
fn each_preset_has_models() {
    let given = vec!["m-1".to_string()];
    assert_eq!(models_for(&ModelProviderInfo::anthropic(), &given), given);
    assert!(!models_for(&ModelProviderInfo::openai(), &given).is_empty());
    let ids: Vec<String> = built_in_presets().into_iter().map(|p| p.0).collect();
    assert!(ids.contains(&"openai".to_string()) && ids.contains(&"minimax".to_string()));
}

fn prods() -> Vec<Product> {
    ["Disha Namma Mane", "Cityville by Fincity", "Purva Sparkling Spring by Fincity"]
        .iter()
        .map(|n| Product { name: n.to_string(), ad_account: "act_1".into() })
        .collect()
}

#[test]
fn exact_case_insensitive_and_unique_substring_match() {
    let p = prods();
    assert_eq!(resolve_product("Disha Namma Mane", &p).unwrap(), "Disha Namma Mane");
    assert_eq!(resolve_product("disha namma mane", &p).unwrap(), "Disha Namma Mane");
    // The exact live failure: the model's shorthand now resolves.
    assert_eq!(resolve_product("Namma Mane", &p).unwrap(), "Disha Namma Mane");
    assert_eq!(resolve_product("cityville", &p).unwrap(), "Cityville by Fincity");
}

#[test]
fn ambiguous_or_unknown_errors_with_candidates() {
    let p = prods();
    // "Fincity" matches two products - must not guess.
    let e = resolve_product("Fincity", &p).unwrap_err();
    assert!(e.contains("configured:"), "{}", e);
    assert!(resolve_product("Nope", &p).is_err());
    assert!(resolve_product("", &p).is_err());
}

#[test]
fn logo_rows_align() {
    let rows: Vec<&str> = LOGO.lines().collect();
    assert_eq!(rows.len(), 5);
    // Every row fits an 80-col terminal with the render indent.
    assert!(rows.iter().all(|r| r.len() <= 76));
}

#[test]
fn cuts_on_char_boundary_not_byte() {
    // U+20B9 (rupee sign) is 3 bytes; cap lands mid-char.
    let s = "a\u{20B9}b";
    assert_eq!(truncate_chars(s, 2), "a");
    assert_eq!(truncate_chars(s, 4), "a\u{20B9}");
    assert_eq!(truncate_chars(s, 99), s);
}

#[test]
fn marker_only_when_truncated() {
    assert_eq!(truncate_marked("hello", 3, "..."), "hel...");
    assert_eq!(truncate_marked("hi", 10, "..."), "hi");
}

#[test]
fn widths_are_those_of_utf8() {
    for c in ['a', '\u{e9}', '\u{20B9}', '\u{1F600}'] {
        assert_eq!(char_width(c), c.len_utf8());
    }
    assert_eq!(byte_count("a\u{20B9}"), 4);
}

#[test]
fn texts_are_cut_and_joined() {
    assert_eq!(trim(" \t a b\n"), "a b");
    assert_eq!(split("a,b,,c", ','), vec!["a", "b", "", "c"]);
    assert_eq!(lines("a\r\nb\n"), vec!["a", "b"]);
    assert_eq!(replace("aXbX", "X", "--"), "a--b--");
    assert_eq!(split_once("k=v=w", '='), Some(("k".to_string(), "v=w".to_string())));
    assert_eq!(join(&vec!["a".to_string(), "b".to_string()], ", "), "a, b");
    assert_eq!(repeat("ab", 3), "ababab");
    assert!(contains("hello", "ell") && ends_with("hello", "lo"));
    assert_eq!(parse_u64("18446744073709551615"), Some(u64::MAX));
    assert_eq!(parse_u64("18446744073709551616"), None);
    assert_eq!(parse_i64("-9223372036854775808"), Some(i64::MIN));
    assert_eq!(decimal_int(i64::MIN), "-9223372036854775808");
}

#[test]
fn brief_tool_has_no_required_args() {
    let t = brief_tool();
    assert_eq!(t.name, "brief");
    assert_eq!(t.parameters.get("type").unwrap().as_str(), Some("object"));
    assert!(matches!(t.parameters.get("additionalProperties"), Some(Json::Bool(false))));
}

#[test]
fn funnel_tool_requires_product_arg() {
    let t = funnel_tool();
    let required = t.parameters.get("required").unwrap().as_array().unwrap();
    assert!(required.iter().any(|v| v.as_str() == Some("product")));
}

fn meta(id: &str, secs: i64) -> SessionMeta {
    SessionMeta { id: id.into(), started_at: Moment { secs, nanos: 0 }, data_root: "/w".into() }
}

#[test]
fn parse_session_replays_header_and_items() {
    let m0 = meta("mb-test", 1_785_600_000);
    let mut raw = format!("{}\n", header_line(&m0));
    let items = vec![
        Item::User { text: "hi".into() },
        Item::ToolCall { call_id: "c".into(), name: "brief".into(), args: json("{}") },
        Item::ToolOutput { call_id: "c".into(), output: "t".into(), is_error: false },
        Item::Assistant { text: "a".into() },
    ];
    for i in &items {
        raw.push_str(&item_line(i));
        raw.push('\n');
    }
    raw.push_str("{\"type\":\"future_thing\",\"x\":1}\n"); // skipped, not fatal
    let (m, back) = parse_session(&raw).unwrap();
    assert_eq!(m.id, m0.id);
    assert_eq!(m.started_at, m0.started_at);
    assert_eq!(back.len(), items.len());
    assert!(matches!(&back[0], Item::User { text } if text == "hi"));
    assert!(matches!(&back[3], Item::Assistant { text } if text == "a"));
}

#[test]
fn header_must_be_first_line() {
    assert!(parse_session("{\"type\":\"user\",\"text\":\"x\"}\n").is_err());
    assert!(parse_session("").is_err());
}

#[test]
fn ids_do_not_collide_within_a_second() {
    let a = make_session_id("20260807-101010", seed(123, 7, 0));
    let b = make_session_id("20260807-101010", seed(123, 7, 1));
    assert_ne!(a, b);
}

/// The observed live bug: per-char clock reseeding made suffixes
/// like "oooo"/"3333". With one advancing state, a run of ids must
/// show non-repeated suffixes and no duplicates.
#[test]
fn suffixes_are_not_single_char_runs() {
    let ids: Vec<String> =
        (0..50).map(|n| make_session_id("20260807-101010", seed(500_000 + n * 997, 4242, n))).collect();
    let repeated = ids
        .iter()
        .filter(|id| {
            let sfx: Vec<char> = id.chars().rev().take(4).collect();
            sfx.iter().all(|c| *c == sfx[0])
        })
        .count();
    // One aaaa-style suffix in 50 is possible (36^-3 per id ~ 0.1%);
    // more than two means the state is not advancing.
    assert!(repeated <= 2, "degenerate suffixes: {:?}", ids);
    let mut uniq = ids.clone();
    uniq.sort();
    uniq.dedup();
    assert_eq!(uniq.len(), ids.len(), "duplicate ids in-process");
}

#[test]
fn sessions_are_listed_newest_first() {
    let all = vec![meta("a", 10), meta("b", 30), meta("c", 20)];
    let ids: Vec<String> = list(&all).into_iter().map(|m| m.id).collect();
    assert_eq!(ids, vec!["b", "c", "a"]);
    assert_eq!(latest_id(&all).as_deref(), Some("b"));
    assert!(latest_id(&vec![]).is_none());
    assert!(fmt_meta_line(&meta("mb-z", 1_785_600_000), 90).contains("mb-z"));
}

#[test]
fn moments_are_shown_and_ordered() {
    let m = Moment { secs: 1_785_600_000, nanos: 0 };
    assert_eq!(show_second(m), "2026-08-01 16:00:00");
    assert!(show_minute(m).starts_with("2026-08-01 16:00"));
    assert_eq!(show_stamp(m), "2026-08-01T16:00:00Z");
    assert!(earlier(Moment { secs: 1, nanos: 5 }, Moment { secs: 1, nanos: 6 }));
    assert_eq!(order_newest(&vec![m, Moment { secs: 0, nanos: 0 }, m]), vec![0, 2, 1]);
}

#[test]
fn keys_are_kept_and_cleared() {
    let mut f = load_file(&None);
    store_meta_token(&mut f, "tok");
    store_llm_key(&mut f, "openai", "k1");
    store_llm_key(&mut f, "openai", "k2");
    store_crm_key(&mut f, "crm.token", "c1");
    let back = load_file(&Some(auth_text(&f)));
    assert_eq!(load_meta_token(&back).as_deref(), Some("tok"));
    assert_eq!(load_llm_key(&back, "openai").as_deref(), Some("k2"));
    assert_eq!(load_crm_key(&back, "crm.token").as_deref(), Some("c1"));
    let mut g = back;
    clear_meta_token(&mut g);
    clear_llm_key(&mut g, "openai");
    clear_crm_key(&mut g, "crm.token");
    assert!(load_meta_token(&g).is_none());
    assert!(load_llm_key(&g, "openai").is_none() && load_crm_key(&g, "crm.token").is_none());
    assert!(load_meta_token(&load_file(&Some("junk".into()))).is_none());
}

#[test]
fn schema_creative_row_defaults_tolerate_minimal_input() {
    // Forward-compat floor: an object with only ad_id parses, and
    // unknown fields are ignored.
    let r = read_creative_row(&json(r#"{"ad_id":"1","future_field":42}"#)).unwrap();
    assert_eq!(r.ad_id, "1");
    assert!(!r.is_video && r.asset.is_none() && r.afs_video_ids.is_empty());
}

#[test]
fn schema_product_tag_round_trips_as_underscore_name() {
    let r = CreativeRow { ad_id: "1".into(), product: "NammaMane".into(), ..Default::default() };
    let v = creative_json(&r);
    assert_eq!(v.get("_product").unwrap().as_str(), Some("NammaMane"));
}

#[test]
fn mod_creative_row_defaults_tolerate_minimal_input() {
    let r = read_creative_row(&json(r#"{"ad_id":"1","future_field":42}"#)).unwrap();
    assert_eq!(r.ad_id, "1");
    assert!(!r.is_video && r.asset.is_none() && r.afs_video_ids.is_empty());
}

#[test]
fn mod_product_tag_round_trips_as_underscore_name() {
    let r = CreativeRow { ad_id: "1".into(), product: "NammaMane".into(), ..Default::default() };
    assert_eq!(creative_json(&r).get("_product").unwrap().as_str(), Some("NammaMane"));
}

#[test]
fn written_rows_are_read_back() {
    let leads = LeadsFile {
        schema: "s".into(),
        fetched_at: "t".into(),
        rows: vec![LeadRow {
            lead_id: "l1".into(),
            ad_id: "a1".into(),
            created_time: "c".into(),
            name: Some("N \u{20B9} \"q\"".into()),
            phone: None,
            email: None,
        }],
    };
    let back = read_leads(&leads_text(&leads)).unwrap();
    assert_eq!(back.len(), 1);
    assert_eq!(back[0].name.as_deref(), Some("N \u{20B9} \"q\""));
    assert!(back[0].phone.is_none());
    let contacts = CrmContactsFile {
        schema: "s".into(),
        fetched_at: "t".into(),
        rows: vec![ContactRow { phone: Some("1".into()), email: None }],
    };
    let back = read_contacts(&contacts_text(&contacts)).unwrap();
    assert_eq!(back[0].phone.as_deref(), Some("1"));
}

#[test]
fn a_snapshot_is_read_file_by_file() {
    let mut s = start("/w/snap/2026-07-16", &Some("2026-07-16".into())).unwrap();
    assert!(load(&mut s, SnapshotFile::Crm, r#"[{"id": 1}]"#).is_ok());
    assert_eq!(s.crm.as_array().unwrap().len(), 1);
    assert!(load(&mut s, SnapshotFile::AdsDaily, "junk").is_err());
    let why = |s: &mut Snapshot, raw: &str| match load(s, SnapshotFile::AdsDaily, raw) {
        Err(Error::Json(m)) => m,
        other => panic!("expected a fault, got {:?}", other),
    };
    assert_eq!(why(&mut s, r#"{"not": "rows"}"#), "invalid type: map, expected a sequence");
    assert_eq!(why(&mut s, "[{}, 3]"), "invalid type: integer `3`, expected struct AdsDailyRow");
    assert_eq!(why(&mut s, "[\"x\"]"), "invalid type: string \"x\", expected struct AdsDailyRow");
    assert_eq!(why(&mut s, "[null]"), "invalid type: null, expected struct AdsDailyRow");
    assert_eq!(
        why(&mut s, r#"[{"spend": 2.5, "reach": null, "other": 1}]"#),
        "invalid type: null, expected a string"
    );
    assert_eq!(why(&mut s, r#"[{"actions": {}}]"#), "invalid type: map, expected a sequence");
    assert_eq!(why(&mut s, r#"[["c", true]]"#), "invalid type: boolean `true`, expected a string");
    let long = format!("[[{}[], \"\", \"\", \"\", 1]]", "\"\", ".repeat(17));
    assert_eq!(why(&mut s, &long), "invalid length 22, expected fewer elements in array");
    let names: Vec<String> = ["2026-07-02", "x", "2026-07-01", "2026-7-1"]
        .iter()
        .map(|n| n.to_string())
        .collect();
    let dates = list_dates(&names);
    assert!(dates.contains(&"2026-07-02".to_string()) && !dates.contains(&"x".to_string()));
}

#[test]
fn workspaces_are_read() {
    let raw = r#"{"products": [{"name": "P", "ad_account": "act_1"}], "goals": {"P": 2.5}}"#;
    let c = WorkspaceConfig::load("/w/.moneyball/config.json", raw).unwrap();
    assert_eq!(c.product_names(), vec!["P"]);
    assert_eq!(c.ad_accounts().get("P").unwrap(), "act_1");
    assert!(WorkspaceConfig::load("/w/c", "junk").is_err());
    assert_eq!(join_path("/w", "a"), "/w/a");
    assert_eq!(root_in_config(r#"{"data_root": "/data"}"#).as_deref(), Some("/data"));
    assert_eq!(resolve_data_root(&vec![None, Some("/x".into())], "/cwd"), "/x");
    assert_eq!(resolve_data_root(&vec![None], "/cwd"), "/cwd/moneyball-data");
}

#[test]
fn snapshots_are_found_by_their_date() {
    let cfg =
        AppConfig { data_root: "/w".into(), date: None, workspace: None, agent: false };
    assert!(!cfg.has_workspace());
    assert_eq!(cfg.snap_dir(), "/w/.moneyball/history/snap");
    assert_eq!((cfg.state_dir(), cfg.runs_dir()), ("/w/.moneyball/state".to_string(), "/w/.moneyball/runs".to_string()));
    assert_eq!(spec_path(&cfg), "/w/.moneyball/crm.toml");
    let names = Some(vec!["2026-07-01".to_string(), "2026-07-03".to_string(), "x".to_string()]);
    let latest = cfg.snap_for(&None, false, &names).unwrap();
    assert_eq!(latest, "/w/.moneyball/history/snap/2026-07-03");
    assert_eq!(
        cfg.snap_for(&Some("2026-07-01".into()), true, &names).unwrap(),
        "/w/.moneyball/history/snap/2026-07-01"
    );
    // A date may be a path.
    assert_eq!(
        cfg.snap_for(&Some("./2026-07-01".into()), true, &names).unwrap(),
        "/w/.moneyball/history/snap/./2026-07-01"
    );
    assert_eq!(cfg.date_dir("/elsewhere"), "/elsewhere");
    let e = cfg.snap_for(&Some("2026-07-02".into()), false, &names).unwrap_err();
    assert_eq!(
        e.message(),
        "no snapshot for date 2026-07-02 (looked in /w/.moneyball/history/snap)"
    );
    assert!(matches!(
        cfg.snap_for(&Some("2026-07-01".into()), true, &None),
        Err(Error::NoSnapshot { date, .. }) if date == "<any>"
    ));
    assert!(matches!(
        cfg.snap_for(&None, false, &Some(vec![])),
        Err(Error::NoSnapshot { date, .. }) if date == "<latest>"
    ));
}

#[test]
fn errors_have_messages() {
    assert_eq!(Error::Io("x".into()).message(), "io: x");
    assert_eq!(Error::Json("x".into()).message(), "json: x");
    assert_eq!(Error::Config("x".into()).message(), "config: x");
    assert_eq!(Error::Meta("x".into()).message(), "meta api: x");
    assert_eq!(Error::Secrets("x".into()).message(), "secrets: x");
    assert_eq!(Error::Llm("x".into()).message(), "llm: x");
    assert_eq!(Error::LlmAuth("x".into()).message(), "llm auth: x");
    let e = Error::InvalidJson { date: "d".into(), file: "f".into(), source: "s".into() };
    assert_eq!(e.message(), "snapshot d/f: invalid JSON: s");
    let e = Error::NoWorkspaceConfig { path: "/p".into() };
    assert!(e.message().starts_with("no workspace config at /p\n"));
}

#[test]
fn accounts_come_from_replies() {
    let body = json(r#"{"data": [{"id": "act_7", "name": "N", "account_status": 1}]}"#);
    let a = list_ad_accounts(true, "200 OK", &body).unwrap();
    assert_eq!(a.len(), 1);
    let refused = json(r#"{"error": {"message": "bad token", "code": 190}}"#);
    assert!(list_ad_accounts(false, "400 Bad Request", &refused).is_err());
    let why = |text: &str| match list_ad_accounts(true, "200 OK", &json(text)) {
        Err(Error::Meta(m)) => m,
        other => panic!("expected a fault, got {:?}", other),
    };
    assert_eq!(why("{}"), "decode: missing field `data`");
    assert_eq!(why("7"), "decode: invalid type: integer `7`, expected struct ApiResponse");
    assert_eq!(why(r#"{"data": "x"}"#), "decode: invalid type: string \"x\", expected a sequence");
    assert_eq!(why(r#"{"data": [{"name": "N"}]}"#), "decode: missing field `id`");
    assert_eq!(why(r#"{"data": [{"id": "1"}]}"#), "decode: missing field `name`");
    assert_eq!(
        why(r#"{"data": [{"id": 1, "name": 2, "account_status": -1}]}"#),
        "decode: invalid value: integer `-1`, expected u32"
    );
    assert_eq!(
        why(r#"{"data": [["a"]]}"#),
        "decode: invalid length 1, expected struct AdAccount with 3 elements"
    );
    assert_eq!(why("[[], 1]"), "decode: invalid length 2, expected fewer elements in array");
    assert_eq!(why("[]"), "decode: invalid length 0, expected struct ApiResponse with 1 element");
    assert!(matches!(
        validate_token(false, "400 Bad Request", &refused),
        Err(Error::Meta(m)) if m.contains("bad token")
    ));
    assert!(validate_token(true, "200 OK", &json("{}")).is_ok());
    assert!(parse_error(&refused, "400 Bad Request").contains("bad token"));
    assert_eq!(account_id_for_storage("act_7"), account_id_for_storage("7"));
}

#[test]
fn documents_are_read_and_written() {
    let j = json(r#"{"a": [1, "x", null, true], "b": {"c": -2}}"#);
    assert_eq!(j.to_text(), r#"{"a":[1,"x",null,true],"b":{"c":-2}}"#);
    assert_eq!(j.pointer("/a/1").unwrap().as_str(), Some("x"));
    assert!(j.pointer("/a/9").is_none());
    assert_eq!(j.to_pretty(), "{\n  \"a\": [\n    1,\n    \"x\",\n    null,\n    true\n  ],\n  \"b\": {\n    \"c\": -2\n  }\n}");
    assert!(Json::parse("{").is_err());
    assert!(Json::parse_bytes(&vec![0xff]).is_err());
    let t = Json::parse_toml("a = 1\n[b]\nc = \"x\"\n").unwrap();
    assert_eq!(t.pointer("/b/c").unwrap().as_str(), Some("x"));
    assert!(Json::parse_toml("a = ").is_err());
}

#[test]
fn a_map_holds_each_name_once() {
    let pair = |k: &str, v: &str| (k.to_string(), v.to_string());
    let mut m = TextMap::from_pairs(&vec![pair("a", "1"), pair("b", "2"), pair("a", "3")]);
    assert_eq!(m.pairs, vec![pair("a", "3"), pair("b", "2")]);
    m.insert("c", "4");
    m.insert("b", "5");
    m.remove("a");
    assert_eq!(m.pairs, vec![pair("b", "5"), pair("c", "4")]);
    assert!(m.get("a").is_none());
}

#[test]
fn keys_may_be_written_as_a_list() {
    let f = load_file(&Some(r#"["t-1", {"openai": "k-1"}, {"crm": "s-1"}]"#.into()));
    assert_eq!(load_meta_token(&f).as_deref(), Some("t-1"));
    assert_eq!(load_llm_key(&f, "openai").as_deref(), Some("k-1"));
    assert_eq!(load_crm_key(&f, "crm").as_deref(), Some("s-1"));
    let f = load_file(&Some(r#"["t-1"]"#.into()));
    assert_eq!(load_meta_token(&f).as_deref(), Some("t-1"));
    let f = load_file(&Some(r#"["t-1", {}, {}, 4]"#.into()));
    assert!(load_meta_token(&f).is_none());
}
