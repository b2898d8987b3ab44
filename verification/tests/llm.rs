//! Bodies of requests, replies and streams of each wire.

use moneyball_core::agent::Item;
use moneyball_core::error::Error;
use moneyball_core::json::Json;
use moneyball_core::llm::replies::{
    complete, complete_with_tools, no_key, parse_assistant_text, parse_completion,
    parse_responses_completion,
};
use moneyball_core::llm::stream::{
    classify_event, extract_stream_delta, is_length_stop, parse_args, LineStep, SseSignal, Stream,
    ToolCallAcc,
};
use moneyball_core::llm::{
    build_chat_body, build_chat_body_with_tools, build_messages_body,
    build_messages_body_with_tools, build_responses_body, build_responses_body_with_tools,
    chat_history, endpoint_for, messages_history, request_headers, request_query, responses_history,
    status_error, streamed, truncate, turn_body, DEFAULT_MAX_TOKENS,
};
use moneyball_core::provider::{ModelProviderInfo, TextMap, WireApi};
use moneyball_core::tools::{brief_tool, funnel_tool, Completion};

fn json(text: &str) -> Json {
    Json::parse(text).unwrap()
}

/// The text at a path.
fn at<'a>(v: &'a Json, path: &str) -> &'a str {
    v.pointer(path).and_then(|x| x.as_str()).unwrap_or("(no text)")
}

fn some(s: &str) -> Option<String> {
    Some(s.to_string())
}

#[test]
fn endpoint_for_each_wire() {
    let provider = |wire_api| ModelProviderInfo {
        base_url: "https://api.example.com/v1/".into(),
        wire_api,
        ..Default::default()
    };
    assert_eq!(
        endpoint_for(&provider(WireApi::Responses)),
        "https://api.example.com/v1/responses"
    );
    assert_eq!(
        endpoint_for(&provider(WireApi::ChatCompletions)),
        "https://api.example.com/v1/chat/completions"
    );
    assert_eq!(
        endpoint_for(&provider(WireApi::Messages)),
        "https://api.example.com/v1/messages"
    );
}

#[test]
fn responses_body_uses_instructions_and_input() {
    let v = build_responses_body("gpt-5", &some("you are a moneyball advisor"), "show me namma");
    assert_eq!(at(&v, "/model"), "gpt-5");
    assert_eq!(at(&v, "/instructions"), "you are a moneyball advisor");
    assert_eq!(at(&v, "/input"), "show me namma");
}

#[test]
fn chat_body_separates_system_message() {
    let v = build_chat_body("gpt-oss", &some("be terse"), "hello");
    let msgs = v.get("messages").unwrap().as_array().unwrap();
    assert_eq!(msgs.len(), 2);
    assert_eq!(at(&msgs[0], "/role"), "system");
    assert_eq!(at(&msgs[0], "/content"), "be terse");
    assert_eq!(at(&msgs[1], "/role"), "user");
    assert_eq!(at(&msgs[1], "/content"), "hello");
}

#[test]
fn chat_body_no_system() {
    let v = build_chat_body("gpt-oss", &None, "hello");
    let msgs = v.get("messages").unwrap().as_array().unwrap();
    assert_eq!(msgs.len(), 1);
    assert_eq!(at(&msgs[0], "/role"), "user");
}

#[test]
fn messages_body_top_level_system_and_max_tokens() {
    let v = build_messages_body("MiniMax-M2", &some("be brief"), "hi");
    assert_eq!(at(&v, "/model"), "MiniMax-M2");
    assert_eq!(at(&v, "/system"), "be brief");
    assert_eq!(v.get("max_tokens").unwrap().as_u64(), Some(DEFAULT_MAX_TOKENS));
    assert_eq!(at(&v, "/messages/0/role"), "user");
}

#[test]
fn parse_responses_output_text() {
    let body = r#"{
        "id": "resp_1",
        "output": [{
            "type": "message",
            "content": [{"type": "output_text", "text": "Hello world"}]
        }]
    }"#;
    assert_eq!(
        parse_assistant_text(WireApi::Responses, body).as_deref(),
        Some("Hello world")
    );
}

#[test]
fn parse_chat_completions_first_choice() {
    let body = r#"{
        "choices": [
            {"message": {"role": "assistant", "content": "Hi there"}}
        ]
    }"#;
    assert_eq!(
        parse_assistant_text(WireApi::ChatCompletions, body).as_deref(),
        Some("Hi there")
    );
}

#[test]
fn parse_messages_text_block() {
    let body = r#"{
        "content": [{"type": "text", "text": "Greetings"}]
    }"#;
    assert_eq!(
        parse_assistant_text(WireApi::Messages, body).as_deref(),
        Some("Greetings")
    );
}

#[test]
fn parse_empty_body_returns_none() {
    assert!(parse_assistant_text(WireApi::Responses, "").is_none());
    assert!(parse_assistant_text(WireApi::ChatCompletions, "not json").is_none());
    assert!(parse_assistant_text(WireApi::Messages, "{}").is_none());
}

#[test]
fn parse_unknown_wire_returns_none() {
    // Sanity: malformed body for each wire.
    assert!(parse_assistant_text(WireApi::Responses, "{}").is_none());
    assert!(parse_assistant_text(WireApi::ChatCompletions, "{}").is_none());
}

#[test]
fn parse_responses_text_only() {
    let body = r#"{
        "output": [{
            "type": "message",
            "content": [{"type": "output_text", "text": "Hello"}]
        }]
    }"#;
    match parse_completion(WireApi::Responses, body).unwrap() {
        Completion::Text(t) => assert_eq!(t, "Hello"),
        other => panic!("expected Text, got {:?}", other),
    }
}

#[test]
fn parse_responses_function_call() {
    let body = r#"{
        "output": [{
            "type": "function_call",
            "name": "brief",
            "arguments": "{}",
            "call_id": "call_1"
        }]
    }"#;
    match parse_completion(WireApi::Responses, body).unwrap() {
        Completion::ToolCalls(calls) => {
            assert_eq!(calls.len(), 1);
            assert_eq!(calls[0].name, "brief");
            assert_eq!(calls[0].id, "call_1");
        }
        other => panic!("expected ToolCalls, got {:?}", other),
    }
}

#[test]
fn parse_responses_function_call_object_arguments() {
    // Newer Responses API may send arguments as an object, not a string.
    let body = r#"{
        "output": [{
            "type": "function_call",
            "name": "diagnose",
            "arguments": {"product": "Namma Mane"},
            "call_id": "call_2"
        }]
    }"#;
    match parse_completion(WireApi::Responses, body).unwrap() {
        Completion::ToolCalls(calls) => {
            assert_eq!(calls[0].name, "diagnose");
            assert_eq!(at(&calls[0].arguments, "/product"), "Namma Mane");
        }
        other => panic!("expected ToolCalls, got {:?}", other),
    }
}

#[test]
fn parse_chat_completions_tool_calls() {
    let body = r#"{
        "choices": [{
            "message": {
                "role": "assistant",
                "content": null,
                "tool_calls": [{
                    "id": "tc_1",
                    "type": "function",
                    "function": {"name": "brief", "arguments": "{}"}
                }]
            }
        }]
    }"#;
    match parse_completion(WireApi::ChatCompletions, body).unwrap() {
        Completion::ToolCalls(calls) => {
            assert_eq!(calls.len(), 1);
            assert_eq!(calls[0].id, "tc_1");
            assert_eq!(calls[0].name, "brief");
        }
        other => panic!("expected ToolCalls, got {:?}", other),
    }
}

#[test]
fn parse_anthropic_tool_use() {
    let body = r#"{
        "content": [
            {"type": "text", "text": "let me check"},
            {"type": "tool_use", "id": "toolu_1", "name": "brief", "input": {}}
        ]
    }"#;
    match parse_completion(WireApi::Messages, body).unwrap() {
        Completion::ToolCalls(calls) => {
            assert_eq!(calls.len(), 1);
            assert_eq!(calls[0].id, "toolu_1");
            assert_eq!(calls[0].name, "brief");
        }
        other => panic!(
            "expected ToolCalls (since tool_use present), got {:?}",
            other
        ),
    }
}

#[test]
fn stream_delta_messages_wire() {
    let v = json(r#"{"type":"content_block_delta","index":0,"delta":{"type":"text_delta","text":"Hel"}}"#);
    assert_eq!(
        extract_stream_delta(WireApi::Messages, &v).as_deref(),
        Some("Hel")
    );
    // Non-delta events yield nothing.
    let v2 = json(r#"{"type":"message_start"}"#);
    assert!(extract_stream_delta(WireApi::Messages, &v2).is_none());
}

#[test]
fn stream_delta_chat_wire() {
    let v = json(r#"{"choices":[{"delta":{"content":"lo "},"index":0}]}"#);
    assert_eq!(
        extract_stream_delta(WireApi::ChatCompletions, &v).as_deref(),
        Some("lo ")
    );
    // Final chunk has empty delta - no text.
    let v2 = json(r#"{"choices":[{"delta":{},"finish_reason":"stop"}]}"#);
    assert!(extract_stream_delta(WireApi::ChatCompletions, &v2).is_none());
}

#[test]
fn stream_delta_responses_wire() {
    let v = json(r#"{"type":"response.output_text.delta","delta":"world"}"#);
    assert_eq!(
        extract_stream_delta(WireApi::Responses, &v).as_deref(),
        Some("world")
    );
    let v2 = json(r#"{"type":"response.completed"}"#);
    assert!(extract_stream_delta(WireApi::Responses, &v2).is_none());
}

#[test]
fn classify_error_terminal_and_stop_per_wire() {
    let cases: &[(WireApi, &str, &str)] = &[
        (
            WireApi::Messages,
            r#"{"type":"error","error":{"type":"overloaded_error","message":"Overloaded"}}"#,
            "error",
        ),
        (WireApi::Messages, r#"{"type":"message_stop"}"#, "terminal"),
        (
            WireApi::Messages,
            r#"{"type":"message_delta","delta":{"stop_reason":"max_tokens"},"usage":{}}"#,
            "length",
        ),
        (
            WireApi::ChatCompletions,
            r#"{"error":{"message":"bad model"}}"#,
            "error",
        ),
        (
            WireApi::ChatCompletions,
            r#"{"choices":[{"delta":{},"finish_reason":"length"}]}"#,
            "length",
        ),
        (
            WireApi::ChatCompletions,
            r#"{"choices":[{"delta":{},"finish_reason":"stop"}]}"#,
            "stop",
        ),
        (
            WireApi::Responses,
            r#"{"type":"response.failed","response":{},"error":{"message":"boom"}}"#,
            "error",
        ),
        (WireApi::Responses, r#"{"type":"response.completed"}"#, "terminal"),
    ];
    for (wire, payload, want) in cases {
        let v = json(payload);
        let got = match classify_event(*wire, &v) {
            SseSignal::Error(_) => "error".to_string(),
            SseSignal::Terminal => "terminal".to_string(),
            SseSignal::Stop(r) if is_length_stop(&r) => "length".to_string(),
            SseSignal::Stop(r) => r,
            SseSignal::Nothing => "none".to_string(),
        };
        assert_eq!(&got, want, "payload: {}", payload);
    }
    // Plain deltas are not signals.
    let v = json(r#"{"type":"content_block_delta","index":0,"delta":{"type":"text_delta","text":"x"}}"#);
    assert!(matches!(
        classify_event(WireApi::Messages, &v),
        SseSignal::Nothing
    ));
}

#[test]
fn status_error_keeps_llm_auth_contract() {
    assert!(matches!(
        status_error("p", 401, "401 Unauthorized", "no"),
        Error::LlmAuth(_)
    ));
    assert!(matches!(
        status_error("p", 403, "403 Forbidden", "no"),
        Error::LlmAuth(_)
    ));
    assert!(matches!(
        status_error("p", 500, "500 Internal Server Error", "boom"),
        Error::Llm(_)
    ));
}

#[test]
fn parse_anthropic_text_only() {
    let body = r#"{
        "content": [{"type": "text", "text": "All healthy."}]
    }"#;
    match parse_completion(WireApi::Messages, body).unwrap() {
        Completion::Text(t) => assert_eq!(t, "All healthy."),
        other => panic!("expected Text, got {:?}", other),
    }
}

#[test]
fn acc_assembles_messages_wire_tool_call_from_deltas() {
    let mut acc = ToolCallAcc::new();
    acc.feed(
        WireApi::Messages,
        &json(
            r#"{"type":"content_block_start","index":1,
            "content_block":{"type":"tool_use","id":"c9","name":"brief"}}"#,
        ),
    );
    acc.feed(
        WireApi::Messages,
        &json(
            r#"{"type":"content_block_delta","index":1,
            "delta":{"type":"input_json_delta","partial_json":"{\"a\":"}}"#,
        ),
    );
    acc.feed(
        WireApi::Messages,
        &json(
            r#"{"type":"content_block_delta","index":1,
            "delta":{"type":"input_json_delta","partial_json":"1}"}}"#,
        ),
    );
    let calls = acc.finish();
    assert_eq!(calls.len(), 1);
    assert_eq!(calls[0].id, "c9");
    assert_eq!(calls[0].arguments.get("a").unwrap().as_u64(), Some(1));
}

#[test]
fn acc_assembles_chat_wire_tool_call_by_index() {
    let mut acc = ToolCallAcc::new();
    acc.feed(
        WireApi::ChatCompletions,
        &json(
            r#"{"choices":[{"delta":{"tool_calls":[
            {"index":0,"id":"x","function":{"name":"funnel","arguments":"{\"p\""}}]}}]}"#,
        ),
    );
    acc.feed(
        WireApi::ChatCompletions,
        &json(
            r#"{"choices":[{"delta":{"tool_calls":[
            {"index":0,"function":{"arguments":":\"P\"}"}}]}}]}"#,
        ),
    );
    let calls = acc.finish();
    assert_eq!(calls[0].name, "funnel");
    assert_eq!(at(&calls[0].arguments, "/p"), "P");
}

#[test]
fn responses_body_with_tools_includes_tools_array() {
    let v = build_responses_body_with_tools("gpt-5", &some("sys"), "hi", &vec![brief_tool()]);
    assert_eq!(at(&v, "/model"), "gpt-5");
    assert!(v.get("tools").unwrap().as_array().is_some());
    assert_eq!(at(&v, "/tools/0/type"), "function");
    assert_eq!(at(&v, "/tools/0/function/name"), "brief");
}

#[test]
fn chat_body_with_tools_omits_field_when_empty() {
    let v = build_chat_body_with_tools("gpt-4", &None, "hi", &vec![]);
    assert!(v.get("tools").is_none());
}

#[test]
fn anthropic_body_with_tools_uses_input_schema() {
    let v =
        build_messages_body_with_tools("MiniMax-M2", &some("sys"), "hi", &vec![funnel_tool()]);
    assert!(v.get("tools").unwrap().as_array().is_some());
    assert!(v.pointer("/tools/0/input_schema").is_some());
    assert!(at(&v, "/tools/0/name") == "funnel");
}

fn hist() -> Vec<Item> {
    vec![
        Item::User { text: "q".into() },
        Item::ToolCall {
            call_id: "c1".into(),
            name: "funnel".into(),
            args: json(r#"{"product": "P"}"#),
        },
        Item::ToolOutput { call_id: "c1".into(), output: "table".into(), is_error: false },
        Item::Assistant { text: "ans".into() },
    ]
}

#[test]
fn messages_history_coalesces_roles_and_maps_tool_blocks() {
    let m = messages_history(&hist());
    // user(q) | assistant(tool_use) | user(tool_result) | assistant(text)
    assert_eq!(m.len(), 4);
    assert_eq!(at(&m[1], "/content/0/type"), "tool_use");
    assert_eq!(at(&m[1], "/content/0/input/product"), "P");
    assert_eq!(at(&m[2], "/content/0/type"), "tool_result");
    assert_eq!(at(&m[2], "/content/0/tool_use_id"), "c1");
}

#[test]
fn chat_history_uses_tool_role_and_stringified_args() {
    let m = chat_history("sys", &hist());
    assert_eq!(at(&m[0], "/role"), "system");
    assert_eq!(at(&m[2], "/tool_calls/0/function/name"), "funnel");
    assert_eq!(at(&m[3], "/role"), "tool");
    assert_eq!(at(&m[3], "/tool_call_id"), "c1");
}

#[test]
fn responses_history_emits_typed_items() {
    let m = responses_history(&hist());
    assert_eq!(at(&m[1], "/type"), "function_call");
    assert_eq!(at(&m[2], "/type"), "function_call_output");
}

#[test]
fn bad_args_become_empty_object_not_panic() {
    assert_eq!(parse_args("{broken").to_text(), "{}");
    assert_eq!(parse_args("").to_text(), "{}");
}

#[test]
fn each_wire_has_its_own_headers() {
    let h = request_headers(&ModelProviderInfo::openai(), "k1", &TextMap::new());
    assert!(h.iter().any(|(k, v)| k == "Authorization" && v == "Bearer k1"), "{:?}", h);
    let h = request_headers(&ModelProviderInfo::minimax(), "k2", &TextMap::new());
    assert!(h.iter().any(|(_, v)| v == "2023-06-01"), "{:?}", h);
}

#[test]
fn replies_are_told_from_errors() {
    let ok = r#"{"choices": [{"message": {"content": "Hi"}}]}"#;
    assert_eq!(complete("p", WireApi::ChatCompletions, 200, "200 OK", ok).unwrap(), "Hi");
    assert!(matches!(
        complete("p", WireApi::ChatCompletions, 401, "401 Unauthorized", "no"),
        Err(Error::LlmAuth(_))
    ));
    assert!(matches!(
        complete("p", WireApi::ChatCompletions, 200, "200 OK", "{}"),
        Err(Error::Llm(_))
    ));
    assert!(matches!(
        complete_with_tools("p", WireApi::ChatCompletions, 200, "200 OK", ok),
        Ok(Completion::Text(t)) if t == "Hi"
    ));
    assert!(matches!(no_key("p"), Error::LlmAuth(_)));
    assert_eq!(truncate("abcdef", 3).chars().take(3).collect::<String>(), "abc");
}

#[test]
fn a_stream_is_put_together() {
    let w = WireApi::ChatCompletions;
    let mut s = Stream::new();
    let lines = [
        r#": keep-alive"#,
        r#"data: {"choices":[{"delta":{"content":"Hel"}}]}"#,
        r#"data: {"choices":[{"delta":{"content":"lo"}}]}"#,
        r#"data: {"choices":[{"delta":{},"finish_reason":"stop"}]}"#,
    ];
    let mut seen = String::new();
    for l in lines {
        if let LineStep::Delta(d) = s.feed_line(w, "p", l).unwrap() {
            seen.push_str(&d);
        }
    }
    assert_eq!(seen, "Hello");
    assert!(matches!(s.feed_line(w, "p", "data: [DONE]"), Ok(LineStep::End)));
    let r = s.finish("p").unwrap();
    assert_eq!(r.text, "Hello");
    assert!(!r.truncated && r.tool_calls.is_empty());
}

#[test]
fn a_broken_stream_is_an_error() {
    let mut s = Stream::new();
    assert!(s
        .feed_line(WireApi::ChatCompletions, "p", r#"data: {"error":{"message":"bad model"}}"#)
        .is_err());
    assert!(Stream::new().finish("p").is_err());
    assert!(Stream::new().finish_text("p").is_err());
}

#[test]
fn a_turn_is_asked_as_a_stream() {
    for w in [WireApi::Responses, WireApi::ChatCompletions, WireApi::Messages] {
        let v = turn_body(w, "m", "sys", &hist(), &vec![brief_tool()]);
        assert!(matches!(v.get("stream"), Some(Json::Bool(true))), "{}", v.to_text());
        assert_eq!(at(&v, "/model"), "m");
    }
    assert!(matches!(streamed(json("{}")).get("stream"), Some(Json::Bool(true))));
}

#[test]
fn arguments_that_come_as_a_text_are_parsed() {
    let reply = json(
        r#"{"output": [{"type": "function_call", "name": "funnel",
            "arguments": "{\"product\":\"P\"}", "call_id": "c1"}]}"#,
    );
    match parse_responses_completion(&reply).unwrap() {
        Completion::ToolCalls(calls) => {
            assert_eq!(calls.len(), 1);
            assert_eq!((calls[0].id.as_str(), calls[0].name.as_str()), ("c1", "funnel"));
            assert_eq!(at(&calls[0].arguments, "/product"), "P");
        }
        other => panic!("expected ToolCalls, got {:?}", other),
    }
}

#[test]
fn parameters_of_a_provider_go_with_its_requests() {
    assert!(request_query(&ModelProviderInfo::openai()).is_empty());
    let p = ModelProviderInfo {
        query_params: Some(TextMap::of1("api-version", "1")),
        ..Default::default()
    };
    assert_eq!(request_query(&p), vec![("api-version".to_string(), "1".to_string())]);
}
