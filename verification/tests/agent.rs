//! Turns of the agent and their items.

use moneyball_core::agent::{heal_history, truncate_output, Item, MAX_OUTPUT_LINES};
use moneyball_core::json::Json;
use moneyball_core::session::{item_json, item_line, parse_item_line};

fn json(text: &str) -> Json {
    Json::parse(text).unwrap()
}

#[test]
fn heal_inserts_aborted_outputs_after_dangling_calls() {
    let mut h = vec![
        Item::User { text: "q".into() },
        Item::ToolCall { call_id: "c1".into(), name: "brief".into(), args: Json::Null },
    ];
    heal_history(&mut h);
    assert_eq!(h.len(), 3);
    match &h[2] {
        Item::ToolOutput { call_id, is_error, .. } => {
            assert_eq!(call_id, "c1");
            assert!(is_error);
        }
        other => panic!("expected ToolOutput, got {:?}", other),
    }
    // Idempotent.
    heal_history(&mut h);
    assert_eq!(h.len(), 3);
}

#[test]
fn heal_leaves_answered_calls_alone() {
    let mut h = vec![
        Item::ToolCall { call_id: "c1".into(), name: "brief".into(), args: json("{}") },
        Item::ToolOutput { call_id: "c1".into(), output: "t".into(), is_error: false },
        Item::Assistant { text: "a".into() },
    ];
    heal_history(&mut h);
    assert_eq!(h.len(), 3);
}

#[test]
fn truncate_output_caps_lines_with_hint() {
    let big = "x\n".repeat(3000);
    let t = truncate_output(&big);
    assert!(t.lines().count() <= MAX_OUTPUT_LINES + 1);
    assert!(t.contains("[truncated: kept first 2000 of 3000 lines]"));
    assert_eq!(truncate_output("small"), "small");
}

#[test]
fn item_serde_round_trips() {
    let items = vec![
        Item::User { text: "hi".into() },
        Item::ToolCall {
            call_id: "c".into(),
            name: "funnel".into(),
            args: json(r#"{"product": "P"}"#),
        },
        Item::ToolOutput { call_id: "c".into(), output: "table".into(), is_error: false },
        Item::Assistant { text: "ans".into() },
    ];
    for i in &items {
        let s = item_line(i);
        let back = parse_item_line(&s).unwrap();
        assert_eq!(item_line(&back), s, "round trip changed {:?}", i);
    }
}

#[test]
fn items_are_tagged_by_their_kind() {
    let j = item_json(&Item::User { text: "hi".into() });
    assert_eq!(j.get("type").unwrap().as_str(), Some("user"));
    assert_eq!(j.get("text").unwrap().as_str(), Some("hi"));
    assert!(parse_item_line("{\"type\":\"future\"}").is_none());
    assert!(parse_item_line("not json").is_none());
}
