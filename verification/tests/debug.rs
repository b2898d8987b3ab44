//! Reports on sessions, and bug reports.

use moneyball_core::agent::{Item, TURN_ABORTED_MARKER};
use moneyball_core::dates::Moment;
use moneyball_core::debug::audit::{audit_raw, is_aborted_marker, is_marker, parse_raw};
use moneyball_core::debug::listing::{
    report_all, report_archived, report_reports, FiledReport, SavedSession,
};
use moneyball_core::debug::report;
use moneyball_core::debug::reports::{
    close, is_bug_report_marker, marker_text, new_report, read_report, report_text, sort_reports,
};
use moneyball_core::json::Json;
use moneyball_core::session::{header_line, item_line, SessionMeta};

fn json(text: &str) -> Json {
    Json::parse(text).unwrap()
}

fn at(secs: i64) -> Moment {
    Moment { secs, nanos: 0 }
}

fn raw_with(items: &[Item], extra_lines: &[&str]) -> String {
    let meta = SessionMeta {
        id: "mb-test".into(),
        started_at: at(1_785_000_000),
        data_root: "/w".into(),
    };
    let mut raw = format!("{}\n", header_line(&meta));
    for it in items {
        raw.push_str(&item_line(it));
        raw.push('\n');
    }
    for l in extra_lines {
        raw.push_str(l);
        raw.push('\n');
    }
    raw
}

#[test]
fn clean_session_reports_zero_issues() {
    let raw = raw_with(
        &[
            Item::User { text: "hi".into() },
            Item::ToolCall { call_id: "c1".into(), name: "brief".into(), args: json("{}") },
            Item::ToolOutput { call_id: "c1".into(), output: "table".into(), is_error: false },
            Item::Assistant { text: "done".into() },
        ],
        &[],
    );
    let rep = report("/tmp/x.jsonl", &raw, false).unwrap();
    assert!(rep.contains("0 issue(s)"), "{}", rep);
    assert!(rep.contains("tool_call brief (c1)"));
}

#[test]
fn audit_flags_dangling_dead_turn_skipped_and_errors() {
    let raw = raw_with(
        &[
            Item::User { text: "one".into() },
            Item::User { text: "two".into() }, // dead turn for "one"
            Item::ToolCall {
                call_id: "c9".into(),
                name: "funnel".into(),
                args: json(r#"{"product":"X"}"#),
            }, // never answered
            Item::ToolOutput { call_id: "zz".into(), output: "boom".into(), is_error: true }, // orphan + failure
        ],
        &["{\"type\":\"future\",\"x\":1}"],
    );
    let rep = report("/tmp/x.jsonl", &raw, false).unwrap();
    assert!(rep.contains("dead turn"), "{}", rep);
    assert!(rep.contains("never got a tool_output"), "{}", rep);
    assert!(rep.contains("unknown call_id 'zz'"), "{}", rep);
    assert!(rep.contains("unparseable line(s)"), "{}", rep);
    assert!(rep.contains("tool failure(s)"), "{}", rep);
    // The same raw through the aggregate unit gives the same counts.
    let a = audit_raw(&raw).unwrap();
    assert_eq!(a.issue_count(), 4, "{:?}", a.entries);
    assert_eq!(a.item_count, 4);
}

#[test]
fn aborted_marker_is_not_a_dead_turn() {
    let raw = raw_with(
        &[
            Item::User { text: "q".into() },
            Item::User { text: TURN_ABORTED_MARKER.into() },
            Item::User { text: "next".into() },
            Item::Assistant { text: "a".into() },
        ],
        &[],
    );
    let rep = report("/tmp/x.jsonl", &raw, false).unwrap();
    assert!(!rep.contains("dead turn"), "{}", rep);
    assert!(rep.contains("1 interrupted turn(s)"), "{}", rep);
}

#[test]
fn truncation_respects_full_flag() {
    let long = (0..20).map(|i| format!("line{}", i)).collect::<Vec<_>>().join("\n");
    let raw = raw_with(&[Item::Assistant { text: long }], &[]);
    let short = report("/t", &raw, false).unwrap();
    assert!(short.contains("more lines"), "{}", short);
    let full = report("/t", &raw, true).unwrap();
    assert!(full.contains("line19") && !full.contains("more lines"));
}

#[test]
fn a_file_without_a_header_has_no_report() {
    assert!(report("/t", "", false).is_err());
    assert!(audit_raw("{\"type\":\"user\",\"text\":\"x\"}\n").is_err());
    let (meta, items, skipped) = parse_raw(&raw_with(&[], &["junk"])).unwrap();
    assert_eq!((meta.id.as_str(), items.len(), skipped), ("mb-test", 0, vec![2]));
}

#[test]
fn marker_text_is_flagged_and_carries_comment() {
    assert!(is_bug_report_marker(&marker_text("bad math")));
    assert!(marker_text("bad math").contains("Comment: bad math"));
    assert!(!marker_text("").contains("Comment:"));
    assert!(!is_bug_report_marker("<turn_aborted>x"));
}

#[test]
fn markers_are_no_requests() {
    assert!(is_aborted_marker(TURN_ABORTED_MARKER));
    assert!(is_marker(TURN_ABORTED_MARKER) && is_marker(&marker_text("x")));
    assert!(!is_marker("hello"));
}

#[test]
fn a_written_report_is_read_back() {
    let r = new_report("mb-x", at(1_785_600_000), 5, "  numbers look wrong  ", "0.1.0");
    assert_eq!(r.comment, "numbers look wrong");
    let back = read_report(&report_text(&r)).unwrap();
    assert_eq!(back.session_id, "mb-x");
    assert_eq!(back.item_count, 5);
    assert_eq!(back.comment, "numbers look wrong");
    assert_eq!(back.reported_at, at(1_785_600_000));
    assert!(back.resolution.is_none());
    assert!(read_report("{}").is_none());
}

#[test]
fn a_closed_report_keeps_what_was_done() {
    let r = new_report("mb-r", at(1_785_600_000), 3, "wrong numbers", "0.1.0");
    let c = close(r, at(1_785_700_000), "v0.1.0", "fixed staleness warning in v0.1.0");
    let back = read_report(&report_text(&c)).unwrap();
    let res = back.resolution.unwrap();
    assert_eq!(res.note, "fixed staleness warning in v0.1.0");
    assert_eq!(res.fixed_in, "v0.1.0");
    assert_eq!(res.resolved_at, at(1_785_700_000));
}

#[test]
fn reports_are_sorted_newest_first() {
    let list = vec![
        new_report("a", at(10), 1, "", "v"),
        new_report("b", at(30), 1, "", "v"),
        new_report("c", at(20), 1, "", "v"),
    ];
    let ids: Vec<String> = sort_reports(&list).into_iter().map(|r| r.session_id).collect();
    assert_eq!(ids, vec!["b", "c", "a"]);
}

#[test]
fn listings_name_what_they_list() {
    let good = raw_with(&[Item::Assistant { text: "a".into() }], &[]);
    let sessions = vec![
        SavedSession { id: "mb-test".into(), raw: Ok(good.clone()) },
        SavedSession { id: "mb-gone".into(), raw: Err("no such file".into()) },
    ];
    let all = report_all(&sessions, "/s");
    assert!(all.contains("mb-test") && all.contains("mb-gone"), "{}", all);
    let filed = vec![FiledReport {
        report: new_report("mb-test", at(1_785_600_000), 1, "odd", "v"),
        frozen: Some(good),
    }];
    let listed = report_reports(&filed, "/r", 2);
    assert!(listed.contains("mb-test") && listed.contains("odd"), "{}", listed);
    let archived = vec![close(
        new_report("mb-old", at(1_785_600_000), 1, "odd", "v"),
        at(1_785_700_000),
        "v2",
        "done",
    )];
    let shown = report_archived(&archived);
    assert!(shown.contains("mb-old") && shown.contains("done"), "{}", shown);
}
