//! Requests to language models, in three wire protocols, and their replies.

use crate::agent::{items_view, Item, ItemV};
use crate::error::Error;
use crate::json::{
    empty_object, json_normal, json_printed, list, list1, lemma_list_push, list_view, nat_view,
    natural, object2, object3, object4, object5, put, set_member, text, Json, JsonV,
};
use crate::provider::{
    lemma_text_pairs_push, lookup, text_pairs, ModelProviderInfo, TextMap, WireApi,
};
use crate::strs::{cat2, cat6, chars_of, opt_view, same, slice_text};
use crate::text::{cut_marked, truncate_marked};
use crate::tools::{tools_view, Tool, ToolCall, ToolV};
use vstd::prelude::*;

pub mod laws;
pub mod replies;
pub mod stream;

verus! {

/// The most tokens that a one-shot answer may take on the messages wire.
pub const DEFAULT_MAX_TOKENS: u64 = 4096;

/// The most tokens that the answer in a turn may take on the messages wire.
pub const AGENT_MAX_TOKENS: u64 = 8192;

// Addresses, headers, errors

/// A text without the slashes at its end.
pub open spec fn without_slashes(s: Seq<char>) -> Seq<char>
    decreases s.len(),
{
    if s.len() > 0 && s.last() == '/' {
        without_slashes(s.drop_last())
    } else {
        s
    }
}

pub open spec fn wire_path(w: WireApi) -> Seq<char> {
    match w {
        WireApi::Responses => "/responses"@,
        WireApi::ChatCompletions => "/chat/completions"@,
        WireApi::Messages => "/messages"@,
    }
}

fn trim_slashes(s: &str) -> (r: String)
    ensures
        r@ == without_slashes(s@),
{
    let v = chars_of(s);
    let mut to: usize = v.len();
    assert(v@.take(to as int) =~= v@);
    while to > 0 && v[to - 1] == '/'
        invariant
            to <= v@.len(),
            v@ == s@,
            without_slashes(v@.take(to as int)) == without_slashes(s@),
        decreases to,
    {
        assert(v@.take(to as int).drop_last() =~= v@.take(to - 1));
        to -= 1;
    }
    assert(v@.subrange(0, to as int) =~= v@.take(to as int));
    slice_text(&v, 0, to)
}

/// The address of a provider's endpoint.
pub fn endpoint_for(provider: &ModelProviderInfo) -> (r: String)
    ensures
        r@ == without_slashes(provider.base_url@) + wire_path(provider.wire_api),
{
    let base = trim_slashes(provider.base_url.as_str());
    match provider.wire_api {
        WireApi::Responses => cat2(base.as_str(), "/responses"),
        WireApi::ChatCompletions => cat2(base.as_str(), "/chat/completions"),
        WireApi::Messages => cat2(base.as_str(), "/messages"),
    }
}

pub open spec fn wire_name(w: WireApi) -> Seq<char> {
    match w {
        WireApi::Responses => "Responses"@,
        WireApi::ChatCompletions => "ChatCompletions"@,
        WireApi::Messages => "Messages"@,
    }
}

pub fn wire_api_name(w: WireApi) -> (r: &'static str)
    ensures
        r@ == wire_name(w),
{
    match w {
        WireApi::Responses => "Responses",
        WireApi::ChatCompletions => "ChatCompletions",
        WireApi::Messages => "Messages",
    }
}

/// The headers that the environment fills: those whose variable is set to a text that is not
/// empty.
pub open spec fn env_headers(
    wanted: Seq<(Seq<char>, Seq<char>)>,
    env: Seq<(Seq<char>, Seq<char>)>,
) -> Seq<(Seq<char>, Seq<char>)>
    decreases wanted.len(),
{
    if wanted.len() == 0 {
        Seq::empty()
    } else {
        let before = env_headers(wanted.drop_last(), env);
        match lookup(env, wanted.last().1) {
            Some(v) => if v.len() > 0 {
                before.push((wanted.last().0, v))
            } else {
                before
            },
            None => before,
        }
    }
}

/// The headers that carry the key.
pub open spec fn auth_headers(w: WireApi, key: Seq<char>) -> Seq<(Seq<char>, Seq<char>)> {
    match w {
        WireApi::Messages => seq![("x-api-key"@, key), ("anthropic-version"@, "2023-06-01"@)],
        _ => seq![("Authorization"@, "Bearer "@ + key)],
    }
}

pub open spec fn pairs_or_none(
    o: Option<Seq<(Seq<char>, Seq<char>)>>,
) -> Seq<(Seq<char>, Seq<char>)> {
    match o {
        Some(p) => p,
        None => Seq::empty(),
    }
}

/// The parameters that a provider adds to the address of a request.
pub fn request_query(provider: &ModelProviderInfo) -> (r: Vec<(String, String)>)
    ensures
        text_pairs(r@) == pairs_or_none(provider@.query_params),
{
    let mut out: Vec<(String, String)> = Vec::new();
    assert(text_pairs(out@) =~= Seq::empty());
    match &provider.query_params {
        Some(m) => {
            let ghost own = m@;
            let mut i: usize = 0;
            assert(own.take(0) =~= Seq::empty());
            while i < m.pairs.len()
                invariant
                    i <= m.pairs@.len(),
                    own == text_pairs(m.pairs@),
                    text_pairs(out@) == own.take(i as int),
                decreases m.pairs.len() - i,
            {
                let p = (m.pairs[i].0.clone(), m.pairs[i].1.clone());
                proof {
                    lemma_text_pairs_push(out@, p);
                    assert(own[i as int] == (p.0@, p.1@));
                    assert(own.take(i + 1) =~= own.take(i as int).push(own[i as int]));
                }
                out.push(p);
                i += 1;
            }
            assert(own.take(i as int) =~= own);
        },
        None => {},
    }
    out
}

/// All headers of a request.
pub open spec fn headers_of(
    p: crate::provider::ProviderV,
    key: Seq<char>,
    env: Seq<(Seq<char>, Seq<char>)>,
) -> Seq<(Seq<char>, Seq<char>)> {
    seq![("Content-Type"@, "application/json"@)] + auth_headers(p.wire_api, key) + pairs_or_none(
        p.http_headers,
    ) + env_headers(pairs_or_none(p.env_http_headers), env)
}

/// The headers of a request: its type, the key as the wire wants it, the provider's own headers
/// and those that the environment `env` fills.
pub fn request_headers(provider: &ModelProviderInfo, api_key: &str, env: &TextMap) -> (r: Vec<
    (String, String),
>)
    ensures
        text_pairs(r@) == headers_of(provider@, api_key@, env@),
{
    let mut h: Vec<(String, String)> = Vec::new();
    h.push(("Content-Type".to_owned(), "application/json".to_owned()));
    match provider.wire_api {
        WireApi::Messages => {
            h.push(("x-api-key".to_owned(), api_key.to_owned()));
            h.push(("anthropic-version".to_owned(), "2023-06-01".to_owned()));
        },
        _ => {
            h.push(("Authorization".to_owned(), cat2("Bearer ", api_key)));
        },
    }
    let ghost first = seq![("Content-Type"@, "application/json"@)] + auth_headers(
        provider.wire_api,
        api_key@,
    );
    assert(text_pairs(h@) =~= first);
    let ghost own = pairs_or_none(provider@.http_headers);
    match &provider.http_headers {
        Some(m) => {
            let mut i: usize = 0;
            assert(first + own.take(0) =~= first);
            while i < m.pairs.len()
                invariant
                    i <= m.pairs@.len(),
                    own == text_pairs(m.pairs@),
                    text_pairs(h@) == first + own.take(i as int),
                decreases m.pairs.len() - i,
            {
                let p = (m.pairs[i].0.clone(), m.pairs[i].1.clone());
                proof {
                    lemma_text_pairs_push(h@, p);
                    assert(own[i as int] == (p.0@, p.1@));
                    assert((first + own.take(i as int)).push(own[i as int]) =~= first + own.take(
                        i + 1,
                    ));
                }
                h.push(p);
                i += 1;
            }
            assert(own.take(i as int) =~= own);
        },
        None => {
            assert(first + own =~= first);
        },
    }
    let ghost second = first + own;
    let ghost wanted = pairs_or_none(provider@.env_http_headers);
    match &provider.env_http_headers {
        Some(m) => {
            let mut i: usize = 0;
            assert(second + env_headers(wanted.take(0), env@) =~= second);
            while i < m.pairs.len()
                invariant
                    i <= m.pairs@.len(),
                    wanted == text_pairs(m.pairs@),
                    text_pairs(h@) == second + env_headers(wanted.take(i as int), env@),
                decreases m.pairs.len() - i,
            {
                let ghost before = env_headers(wanted.take(i as int), env@);
                assert(wanted.take(i + 1).drop_last() =~= wanted.take(i as int));
                assert(wanted[i as int] == (m.pairs@[i as int].0@, m.pairs@[i as int].1@));
                match env.get(m.pairs[i].1.as_str()) {
                    Some(v) => {
                        if !v.as_str().is_empty() {
                            let p = (m.pairs[i].0.clone(), v.clone());
                            proof {
                                lemma_text_pairs_push(h@, p);
                                assert((second + before).push((p.0@, p.1@)) =~= second
                                    + before.push((p.0@, p.1@)));
                            }
                            h.push(p);
                        }
                    },
                    None => {},
                }
                i += 1;
            }
            assert(wanted.take(i as int) =~= wanted);
        },
        None => {
            assert(second + env_headers(wanted, env@) =~= second);
        },
    }
    h
}

/// Cuts a text at `n` bytes, with three dots behind it where something was cut.
pub fn truncate(s: &str, n: usize) -> (r: String)
    ensures
        r@ == cut_marked(s@, n as int, "..."@),
{
    truncate_marked(s, n, "...")
}

/// Whether a status means that the key was rejected.
pub open spec fn is_auth_status(code: u16) -> bool {
    code == 401 || code == 403
}

pub open spec fn status_text(
    provider_id: Seq<char>,
    code: u16,
    shown: Seq<char>,
    body: Seq<char>,
) -> Seq<char> {
    let said = if is_auth_status(code) {
        "' rejected the key (HTTP "@
    } else {
        "' returned HTTP "@
    };
    let sep = if is_auth_status(code) {
        "): "@
    } else {
        ": "@
    };
    "provider '"@ + provider_id + said + shown + sep + cut_marked(body, 200, "..."@)
}

/// The error for a reply with a status that is no success; `shown` is the status as it is shown.
pub fn status_error(provider_id: &str, code: u16, shown: &str, body: &str) -> (r: Error)
    ensures
        is_auth_status(code) ==> (r matches Error::LlmAuth(m) && m@ == status_text(
            provider_id@,
            code,
            shown@,
            body@,
        )),
        !is_auth_status(code) ==> (r matches Error::Llm(m) && m@ == status_text(
            provider_id@,
            code,
            shown@,
            body@,
        )),
{
    let cut = truncate(body, 200);
    if code == 401 || code == 403 {
        Error::LlmAuth(
            cat6(
                "provider '",
                provider_id,
                "' rejected the key (HTTP ",
                shown,
                "): ",
                cut.as_str(),
            ),
        )
    } else {
        Error::Llm(cat6("provider '", provider_id, "' returned HTTP ", shown, ": ", cut.as_str()))
    }
}

// Requests of one question

pub open spec fn or_empty(s: Option<Seq<char>>) -> Seq<char> {
    match s {
        Some(t) => t,
        None => Seq::empty(),
    }
}

pub open spec fn role_message(role: Seq<char>, content: Seq<char>) -> JsonV {
    JsonV::Object(seq![("role"@, JsonV::Text(role)), ("content"@, JsonV::Text(content))])
}

fn message(role: &str, content: &str) -> (r: Json)
    ensures
        r@ == role_message(role@, content@),
{
    object2("role", text(role), "content", text(content))
}

fn opt_text(s: &Option<String>) -> (r: Json)
    ensures
        r@ == JsonV::Text(or_empty(opt_view(*s))),
{
    match s {
        Some(t) => text(t.as_str()),
        None => text(String::new().as_str()),
    }
}

pub open spec fn responses_body(
    model: Seq<char>,
    system: Option<Seq<char>>,
    user: Seq<char>,
) -> JsonV {
    JsonV::Object(
        seq![
            ("model"@, JsonV::Text(model)),
            ("instructions"@, JsonV::Text(or_empty(system))),
            ("input"@, JsonV::Text(user)),
        ],
    )
}

pub fn build_responses_body(model: &str, system: &Option<String>, user: &str) -> (r: Json)
    ensures
        r@ == responses_body(model@, opt_view(*system), user@),
{
    object3("model", text(model), "instructions", opt_text(system), "input", text(user))
}

pub open spec fn chat_body(model: Seq<char>, system: Option<Seq<char>>, user: Seq<char>) -> JsonV {
    let question = role_message("user"@, user);
    let messages = match system {
        Some(s) => seq![role_message("system"@, s), question],
        None => seq![question],
    };
    JsonV::Object(seq![("model"@, JsonV::Text(model)), ("messages"@, JsonV::List(messages))])
}

pub fn build_chat_body(model: &str, system: &Option<String>, user: &str) -> (r: Json)
    ensures
        r@ == chat_body(model@, opt_view(*system), user@),
{
    let mut messages: Vec<Json> = Vec::new();
    match system {
        Some(s) => {
            messages.push(message("system", s.as_str()));
        },
        None => {},
    }
    messages.push(message("user", user));
    let ghost question = role_message("user"@, user@);
    proof {
        match system {
            Some(s) => {
                assert(list_view(messages@) =~= seq![role_message("system"@, s@), question]);
            },
            None => {
                assert(list_view(messages@) =~= seq![question]);
            },
        }
    }
    object2("model", text(model), "messages", list(messages))
}

pub open spec fn messages_body(
    model: Seq<char>,
    system: Option<Seq<char>>,
    user: Seq<char>,
) -> JsonV {
    JsonV::Object(
        seq![
            ("model"@, JsonV::Text(model)),
            ("system"@, JsonV::Text(or_empty(system))),
            ("max_tokens"@, nat_view(DEFAULT_MAX_TOKENS)),
            ("messages"@, JsonV::List(seq![role_message("user"@, user)])),
        ],
    )
}

pub fn build_messages_body(model: &str, system: &Option<String>, user: &str) -> (r: Json)
    ensures
        r@ == messages_body(model@, opt_view(*system), user@),
{
    object4(
        "model",
        text(model),
        "system",
        opt_text(system),
        "max_tokens",
        natural(DEFAULT_MAX_TOKENS),
        "messages",
        list1(message("user", user)),
    )
}

/// The body of a request of one question, in the wire's form.
pub open spec fn question_body(
    wire: WireApi,
    model: Seq<char>,
    system: Option<Seq<char>>,
    user: Seq<char>,
) -> JsonV {
    match wire {
        WireApi::Responses => responses_body(model, system, user),
        WireApi::ChatCompletions => chat_body(model, system, user),
        WireApi::Messages => messages_body(model, system, user),
    }
}

pub fn build_body(wire: WireApi, model: &str, system: &Option<String>, user: &str) -> (r: Json)
    ensures
        r@ == question_body(wire, model@, opt_view(*system), user@),
{
    match wire {
        WireApi::Responses => build_responses_body(model, system, user),
        WireApi::ChatCompletions => build_chat_body(model, system, user),
        WireApi::Messages => build_messages_body(model, system, user),
    }
}

/// The body of a request, asking for the answer as a stream.
pub fn streamed(body: Json) -> (r: Json)
    ensures
        r@ == set_member(body@, "stream"@, JsonV::Bool(true)),
{
    put(body, "stream", Json::Bool(true))
}

// Tools on the wire

/// A tool in the form of the messages wire.
pub open spec fn tool_with_schema(t: ToolV) -> JsonV {
    JsonV::Object(
        seq![
            ("name"@, JsonV::Text(t.name)),
            ("description"@, JsonV::Text(t.description)),
            ("input_schema"@, t.parameters),
        ],
    )
}

/// A tool as a function in an object of its own.
pub open spec fn tool_as_function(t: ToolV) -> JsonV {
    JsonV::Object(
        seq![
            ("type"@, JsonV::Text("function"@)),
            (
                "function"@,
                JsonV::Object(
                    seq![
                        ("name"@, JsonV::Text(t.name)),
                        ("description"@, JsonV::Text(t.description)),
                        ("parameters"@, t.parameters),
                    ],
                ),
            ),
        ],
    )
}

/// A tool as a function with its parts beside its type.
pub open spec fn tool_flat(t: ToolV) -> JsonV {
    JsonV::Object(
        seq![
            ("type"@, JsonV::Text("function"@)),
            ("name"@, JsonV::Text(t.name)),
            ("description"@, JsonV::Text(t.description)),
            ("parameters"@, t.parameters),
        ],
    )
}

/// The tools of a request of one question.
pub open spec fn tools_payload_view(wire: WireApi, tools: Seq<ToolV>) -> JsonV {
    JsonV::List(
        tools.map_values(
            |t: ToolV|
                match wire {
                    WireApi::Messages => tool_with_schema(t),
                    _ => tool_as_function(t),
                },
        ),
    )
}

/// The tools of a request in a turn.
pub open spec fn turn_tools(wire: WireApi, tools: Seq<ToolV>) -> JsonV {
    JsonV::List(
        tools.map_values(
            |t: ToolV|
                match wire {
                    WireApi::Messages => tool_with_schema(t),
                    WireApi::ChatCompletions => tool_as_function(t),
                    WireApi::Responses => tool_flat(t),
                },
        ),
    )
}

fn schema_tool(t: &Tool) -> (r: Json)
    ensures
        r@ == tool_with_schema(t@),
{
    object3(
        "name",
        text(t.name.as_str()),
        "description",
        text(t.description.as_str()),
        "input_schema",
        t.parameters.copy(),
    )
}

fn function_tool(t: &Tool) -> (r: Json)
    ensures
        r@ == tool_as_function(t@),
{
    object2(
        "type",
        text("function"),
        "function",
        object3(
            "name",
            text(t.name.as_str()),
            "description",
            text(t.description.as_str()),
            "parameters",
            t.parameters.copy(),
        ),
    )
}

fn flat_tool(t: &Tool) -> (r: Json)
    ensures
        r@ == tool_flat(t@),
{
    object4(
        "type",
        text("function"),
        "name",
        text(t.name.as_str()),
        "description",
        text(t.description.as_str()),
        "parameters",
        t.parameters.copy(),
    )
}

/// The tools of a request of one question, in the wire's form.
pub fn tools_payload(wire: WireApi, tools: &Vec<Tool>) -> (r: Json)
    ensures
        r@ == tools_payload_view(wire, tools_view(tools@)),
{
    let ghost want = tools_payload_view(wire, tools_view(tools@))->List_0;
    let mut out: Vec<Json> = Vec::new();
    let mut i: usize = 0;
    assert(list_view(out@) =~= want.take(0));
    while i < tools.len()
        invariant
            i <= tools@.len(),
            want == tools_payload_view(wire, tools_view(tools@))->List_0,
            list_view(out@) == want.take(i as int),
        decreases tools.len() - i,
    {
        let j = match wire {
            WireApi::Messages => schema_tool(&tools[i]),
            _ => function_tool(&tools[i]),
        };
        proof {
            assert(tools_view(tools@)[i as int] == tools@[i as int]@);
            assert(list_view(out@.push(j)) =~= list_view(out@).push(j@));
            assert(want.take(i + 1) =~= want.take(i as int).push(j@));
        }
        out.push(j);
        i += 1;
    }
    assert(want.take(i as int) =~= want);
    list(out)
}

fn turn_tools_payload(wire: WireApi, tools: &Vec<Tool>) -> (r: Json)
    ensures
        r@ == turn_tools(wire, tools_view(tools@)),
{
    let ghost want = turn_tools(wire, tools_view(tools@))->List_0;
    let mut out: Vec<Json> = Vec::new();
    let mut i: usize = 0;
    assert(list_view(out@) =~= want.take(0));
    while i < tools.len()
        invariant
            i <= tools@.len(),
            want == turn_tools(wire, tools_view(tools@))->List_0,
            list_view(out@) == want.take(i as int),
        decreases tools.len() - i,
    {
        let j = match wire {
            WireApi::Messages => schema_tool(&tools[i]),
            WireApi::ChatCompletions => function_tool(&tools[i]),
            WireApi::Responses => flat_tool(&tools[i]),
        };
        proof {
            assert(tools_view(tools@)[i as int] == tools@[i as int]@);
            assert(list_view(out@.push(j)) =~= list_view(out@).push(j@));
            assert(want.take(i + 1) =~= want.take(i as int).push(j@));
        }
        out.push(j);
        i += 1;
    }
    assert(want.take(i as int) =~= want);
    list(out)
}

/// A body with the tools added, where there are any.
pub open spec fn with_tools(wire: WireApi, body: JsonV, tools: Seq<ToolV>) -> JsonV {
    if tools.len() == 0 {
        body
    } else {
        set_member(body, "tools"@, tools_payload_view(wire, tools))
    }
}

fn add_tools(wire: WireApi, body: Json, tools: &Vec<Tool>) -> (r: Json)
    ensures
        r@ == with_tools(wire, body@, tools_view(tools@)),
{
    assert(tools_view(tools@).len() == tools@.len());
    if tools.len() == 0 {
        body
    } else {
        put(body, "tools", tools_payload(wire, tools))
    }
}

pub fn build_responses_body_with_tools(
    model: &str,
    system: &Option<String>,
    user: &str,
    tools: &Vec<Tool>,
) -> (r: Json)
    ensures
        r@ == with_tools(
            WireApi::Responses,
            responses_body(model@, opt_view(*system), user@),
            tools_view(tools@),
        ),
{
    add_tools(WireApi::Responses, build_responses_body(model, system, user), tools)
}

pub fn build_chat_body_with_tools(
    model: &str,
    system: &Option<String>,
    user: &str,
    tools: &Vec<Tool>,
) -> (r: Json)
    ensures
        r@ == with_tools(
            WireApi::ChatCompletions,
            chat_body(model@, opt_view(*system), user@),
            tools_view(tools@),
        ),
{
    add_tools(WireApi::ChatCompletions, build_chat_body(model, system, user), tools)
}

pub fn build_messages_body_with_tools(
    model: &str,
    system: &Option<String>,
    user: &str,
    tools: &Vec<Tool>,
) -> (r: Json)
    ensures
        r@ == with_tools(
            WireApi::Messages,
            messages_body(model@, opt_view(*system), user@),
            tools_view(tools@),
        ),
{
    add_tools(WireApi::Messages, build_messages_body(model, system, user), tools)
}

/// The body of a request of one question with tools, in the wire's form.
pub fn build_body_with_tools(
    wire: WireApi,
    model: &str,
    system: &Option<String>,
    user: &str,
    tools: &Vec<Tool>,
) -> (r: Json)
    ensures
        r@ == with_tools(
            wire,
            question_body(wire, model@, opt_view(*system), user@),
            tools_view(tools@),
        ),
{
    match wire {
        WireApi::Responses => build_responses_body_with_tools(model, system, user, tools),
        WireApi::ChatCompletions => build_chat_body_with_tools(model, system, user, tools),
        WireApi::Messages => build_messages_body_with_tools(model, system, user, tools),
    }
}


// Histories on the wire

/// The role that an item has on the messages wire.
pub open spec fn item_role(i: ItemV) -> Seq<char> {
    match i {
        ItemV::User { .. } => "user"@,
        ItemV::Assistant { .. } => "assistant"@,
        ItemV::ToolCall { .. } => "assistant"@,
        ItemV::ToolOutput { .. } => "user"@,
    }
}

/// The block that an item becomes on the messages wire.
pub open spec fn item_block(i: ItemV) -> JsonV {
    match i {
        ItemV::User { text } | ItemV::Assistant { text } => JsonV::Object(
            seq![("type"@, JsonV::Text("text"@)), ("text"@, JsonV::Text(text))],
        ),
        ItemV::ToolCall { call_id, name, args } => JsonV::Object(
            seq![
                ("type"@, JsonV::Text("tool_use"@)),
                ("id"@, JsonV::Text(call_id)),
                ("name"@, JsonV::Text(name)),
                (
                    "input"@,
                    if args is Null {
                        JsonV::Object(Seq::empty())
                    } else {
                        args
                    },
                ),
            ],
        ),
        ItemV::ToolOutput { call_id, output, is_error } => JsonV::Object(
            seq![
                ("type"@, JsonV::Text("tool_result"@)),
                ("tool_use_id"@, JsonV::Text(call_id)),
                ("content"@, JsonV::Text(output)),
                ("is_error"@, JsonV::Bool(is_error)),
            ],
        ),
    }
}

/// The blocks of a history under their roles: neighbours of one role stand in one group.
pub open spec fn role_groups(h: Seq<ItemV>) -> Seq<(Seq<char>, Seq<JsonV>)>
    decreases h.len(),
{
    if h.len() == 0 {
        Seq::empty()
    } else {
        let before = role_groups(h.drop_last());
        let role = item_role(h.last());
        let block = item_block(h.last());
        if before.len() > 0 && before.last().0 == role {
            before.drop_last().push((role, before.last().1.push(block)))
        } else {
            before.push((role, seq![block]))
        }
    }
}

pub open spec fn group_message(g: (Seq<char>, Seq<JsonV>)) -> JsonV {
    JsonV::Object(seq![("role"@, JsonV::Text(g.0)), ("content"@, JsonV::List(g.1))])
}

/// The history on the messages wire.
pub open spec fn messages_history_view(h: Seq<ItemV>) -> Seq<JsonV> {
    role_groups(h).map_values(|g: (Seq<char>, Seq<JsonV>)| group_message(g))
}

/// No two neighbouring messages have the same role.
pub proof fn law_message_roles_alternate(h: Seq<ItemV>)
    ensures
        forall|i: int|
            0 <= i < role_groups(h).len() - 1 ==> (#[trigger] role_groups(h)[i]).0 != role_groups(
                h,
            )[i + 1].0,
    decreases h.len(),
{
    if h.len() > 0 {
        law_message_roles_alternate(h.drop_last());
        let before = role_groups(h.drop_last());
        let now = role_groups(h);
        assert forall|i: int| 0 <= i < now.len() - 1 implies (#[trigger] now[i]).0 != now[i
            + 1].0 by {
            if i + 1 < before.len() {
                assert(before[i].0 != before[i + 1].0);
            }
        }
    }
}

/// All blocks of the groups, one after the other.
pub open spec fn all_blocks(g: Seq<(Seq<char>, Seq<JsonV>)>) -> Seq<JsonV>
    decreases g.len(),
{
    if g.len() == 0 {
        Seq::empty()
    } else {
        all_blocks(g.drop_last()) + g.last().1
    }
}

/// The messages hold the block of every item, in the order of the history.
pub proof fn law_messages_hold_every_item(h: Seq<ItemV>)
    ensures
        all_blocks(role_groups(h)) == h.map_values(|i: ItemV| item_block(i)),
    decreases h.len(),
{
    if h.len() > 0 {
        law_messages_hold_every_item(h.drop_last());
        let before = role_groups(h.drop_last());
        let now = role_groups(h);
        let block = item_block(h.last());
        if before.len() > 0 && before.last().0 == item_role(h.last()) {
            assert(now.drop_last() =~= before.drop_last());
        } else {
            assert(now.drop_last() =~= before);
        }
        assert(all_blocks(now) =~= all_blocks(before).push(block));
        assert(h.map_values(|i: ItemV| item_block(i)) =~= h.drop_last().map_values(
            |i: ItemV| item_block(i),
        ).push(block));
    } else {
        assert(h.map_values(|i: ItemV| item_block(i)) =~= Seq::empty());
    }
}

fn role_of(i: &Item) -> (r: &'static str)
    ensures
        r@ == item_role(i@),
{
    match i {
        Item::User { .. } => "user",
        Item::Assistant { .. } => "assistant",
        Item::ToolCall { .. } => "assistant",
        Item::ToolOutput { .. } => "user",
    }
}

fn block_of(i: &Item) -> (r: Json)
    ensures
        r@ == item_block(i@),
{
    match i {
        Item::User { text: t } => object2("type", text("text"), "text", text(t.as_str())),
        Item::Assistant { text: t } => object2("type", text("text"), "text", text(t.as_str())),
        Item::ToolCall { call_id, name, args } => object4(
            "type",
            text("tool_use"),
            "id",
            text(call_id.as_str()),
            "name",
            text(name.as_str()),
            "input",
            if args.is_null() {
                empty_object()
            } else {
                args.copy()
            },
        ),
        Item::ToolOutput { call_id, output, is_error } => object4(
            "type",
            text("tool_result"),
            "tool_use_id",
            text(call_id.as_str()),
            "content",
            text(output.as_str()),
            "is_error",
            Json::Bool(*is_error),
        ),
    }
}

spec fn groups_view(v: Seq<(String, Vec<Json>)>) -> Seq<(Seq<char>, Seq<JsonV>)> {
    v.map_values(|g: (String, Vec<Json>)| (g.0@, list_view(g.1@)))
}

/// The history in the form of the messages wire.
pub fn messages_history(history: &Vec<Item>) -> (r: Vec<Json>)
    ensures
        list_view(r@) == messages_history_view(items_view(history@)),
{
    let ghost h = items_view(history@);
    let mut groups: Vec<(String, Vec<Json>)> = Vec::new();
    let mut i: usize = 0;
    assert(groups_view(groups@) =~= role_groups(h.take(0)));
    while i < history.len()
        invariant
            i <= history@.len(),
            h == items_view(history@),
            groups_view(groups@) == role_groups(h.take(i as int)),
        decreases history.len() - i,
    {
        let role = role_of(&history[i]);
        let block = block_of(&history[i]);
        let ghost before = groups@;
        proof {
            assert(h.take(i + 1).drop_last() =~= h.take(i as int));
            assert(h[i as int] == history@[i as int]@);
            assert(groups_view(before).len() == before.len());
        }
        let n: usize = groups.len();
        if n > 0 && same(groups[n - 1].0.as_str(), role) {
            match groups.pop() {
                Some((name, blocks)) => {
                    let mut blocks = blocks;
                    let ghost had = blocks@;
                    blocks.push(block);
                    groups.push((name, blocks));
                    proof {
                        lemma_list_push(had, block);
                        assert(groups_view(before).last() == (name@, list_view(had)));
                        assert(groups_view(groups@) =~= groups_view(before).drop_last().push(
                            (role@, list_view(had).push(block@)),
                        ));
                    }
                },
                None => {},
            }
        } else {
            let mut blocks: Vec<Json> = Vec::new();
            blocks.push(block);
            groups.push((role.to_owned(), blocks));
            proof {
                assert(list_view(blocks@) =~= seq![block@]);
                assert(groups_view(groups@) =~= groups_view(before).push(
                    (role@, seq![block@]),
                ));
                if n > 0 {
                    assert(groups_view(before).last().0 == before.last().0@);
                }
            }
        }
        i += 1;
    }
    assert(h.take(i as int) =~= h);
    let ghost all = role_groups(h);
    let ghost made = groups@;
    let mut out: Vec<Json> = Vec::new();
    let mut k: usize = 0;
    assert(list_view(out@) =~= messages_history_view(h).take(0));
    assert(groups_view(made).len() == made.len());
    while k < groups.len()
        invariant
            k <= groups@.len(),
            groups_view(groups@) == role_groups(h),
            messages_history_view(h).len() == groups@.len(),
            list_view(out@) == messages_history_view(h).take(k as int),
        decreases groups.len() - k,
    {
        let mut blocks: Vec<Json> = Vec::new();
        let mut m: usize = 0;
        assert(list_view(blocks@) =~= list_view(groups@[k as int].1@).take(0));
        while m < groups[k].1.len()
            invariant
                k < groups@.len(),
                m <= groups@[k as int].1@.len(),
                list_view(blocks@) == list_view(groups@[k as int].1@).take(m as int),
            decreases groups[k as int].1.len() - m,
        {
            let j = groups[k].1[m].copy();
            proof {
                lemma_list_push(blocks@, j);
                let l = list_view(groups@[k as int].1@);
                assert(l.take(m + 1) =~= l.take(m as int).push(j@));
            }
            blocks.push(j);
            m += 1;
        }
        proof {
            let l = list_view(groups@[k as int].1@);
            assert(l.take(m as int) =~= l);
            assert(groups_view(groups@)[k as int] == (groups@[k as int].0@, l));
        }
        let msg = object2("role", text(groups[k].0.as_str()), "content", list(blocks));
        proof {
            lemma_list_push(out@, msg);
            assert(messages_history_view(h).take(k + 1) =~= messages_history_view(h).take(
                k as int,
            ).push(msg@));
        }
        out.push(msg);
        k += 1;
    }
    assert(messages_history_view(h).take(k as int) =~= messages_history_view(h));
    out
}

/// A message of the chat wire: a plain one, or one that carries calls.
pub enum ChatMessageV {
    Plain(JsonV),
    Calls(Seq<JsonV>),
}

/// A call as it stands in a message of the chat wire; its arguments go as a text.
pub open spec fn chat_call(call_id: Seq<char>, name: Seq<char>, args: JsonV) -> JsonV {
    JsonV::Object(
        seq![
            ("id"@, JsonV::Text(call_id)),
            ("type"@, JsonV::Text("function"@)),
            (
                "function"@,
                JsonV::Object(
                    seq![
                        ("name"@, JsonV::Text(name)),
                        ("arguments"@, JsonV::Text(json_printed(json_normal(args)))),
                    ],
                ),
            ),
        ],
    )
}

/// The messages of a history on the chat wire: calls right behind each other share a message.
pub open spec fn chat_messages(system: Seq<char>, h: Seq<ItemV>) -> Seq<ChatMessageV>
    decreases h.len(),
{
    if h.len() == 0 {
        seq![ChatMessageV::Plain(role_message("system"@, system))]
    } else {
        let before = chat_messages(system, h.drop_last());
        match h.last() {
            ItemV::User { text } => before.push(ChatMessageV::Plain(role_message("user"@, text))),
            ItemV::Assistant { text } => before.push(
                ChatMessageV::Plain(role_message("assistant"@, text)),
            ),
            ItemV::ToolCall { call_id, name, args } => {
                let call = chat_call(call_id, name, args);
                match before.last() {
                    ChatMessageV::Calls(calls) => before.drop_last().push(
                        ChatMessageV::Calls(calls.push(call)),
                    ),
                    _ => before.push(ChatMessageV::Calls(seq![call])),
                }
            },
            ItemV::ToolOutput { call_id, output, .. } => before.push(
                ChatMessageV::Plain(
                    JsonV::Object(
                        seq![
                            ("role"@, JsonV::Text("tool"@)),
                            ("tool_call_id"@, JsonV::Text(call_id)),
                            ("content"@, JsonV::Text(output)),
                        ],
                    ),
                ),
            ),
        }
    }
}

pub open spec fn chat_message_view(m: ChatMessageV) -> JsonV {
    match m {
        ChatMessageV::Plain(j) => j,
        ChatMessageV::Calls(calls) => JsonV::Object(
            seq![
                ("role"@, JsonV::Text("assistant"@)),
                ("content"@, JsonV::Null),
                ("tool_calls"@, JsonV::List(calls)),
            ],
        ),
    }
}

/// The history on the chat wire.
pub open spec fn chat_history_view(system: Seq<char>, h: Seq<ItemV>) -> Seq<JsonV> {
    chat_messages(system, h).map_values(|m: ChatMessageV| chat_message_view(m))
}

fn calls_message(calls: Vec<Json>) -> (r: Json)
    ensures
        r@ == chat_message_view(ChatMessageV::Calls(list_view(calls@))),
{
    object3("role", text("assistant"), "content", Json::Null, "tool_calls", list(calls))
}

spec fn chat_open(m: Seq<ChatMessageV>) -> Seq<JsonV> {
    if m.len() > 0 && m.last() is Calls {
        m.last()->Calls_0
    } else {
        Seq::empty()
    }
}

spec fn chat_done(m: Seq<ChatMessageV>) -> Seq<JsonV> {
    let closed = if m.len() > 0 && m.last() is Calls {
        m.drop_last()
    } else {
        m
    };
    closed.map_values(|c: ChatMessageV| chat_message_view(c))
}

proof fn lemma_chat_messages(system: Seq<char>, h: Seq<ItemV>)
    ensures
        chat_messages(system, h).len() > 0,
        chat_messages(system, h).last() matches ChatMessageV::Calls(c) ==> c.len() > 0,
    decreases h.len(),
{
    if h.len() > 0 {
        lemma_chat_messages(system, h.drop_last());
    }
}

/// The history in the form of the chat wire.
pub fn chat_history(system: &str, history: &Vec<Item>) -> (r: Vec<Json>)
    ensures
        list_view(r@) == chat_history_view(system@, items_view(history@)),
{
    let ghost h = items_view(history@);
    let mut done: Vec<Json> = Vec::new();
    let mut calls: Vec<Json> = Vec::new();
    done.push(message("system", system));
    let mut i: usize = 0;
    proof {
        let m = chat_messages(system@, h.take(0));
        assert(list_view(done@) =~= chat_done(m));
        assert(list_view(calls@) =~= chat_open(m));
    }
    while i < history.len()
        invariant
            i <= history@.len(),
            h == items_view(history@),
            list_view(done@) == chat_done(chat_messages(system@, h.take(i as int))),
            list_view(calls@) == chat_open(chat_messages(system@, h.take(i as int))),
        decreases history.len() - i,
    {
        let ghost before = chat_messages(system@, h.take(i as int));
        let ghost now = chat_messages(system@, h.take(i + 1));
        let ghost had = done@;
        proof {
            lemma_chat_messages(system@, h.take(i as int));
            assert(h.take(i + 1).drop_last() =~= h.take(i as int));
            assert(h[i as int] == history@[i as int]@);
            assert(list_view(calls@).len() == calls@.len());
        }
        match &history[i] {
            Item::ToolCall { call_id, name, args } => {
                let call = object3(
                    "id",
                    text(call_id.as_str()),
                    "type",
                    text("function"),
                    "function",
                    object2(
                        "name",
                        text(name.as_str()),
                        "arguments",
                        text(args.to_text().as_str()),
                    ),
                );
                proof {
                    lemma_list_push(calls@, call);
                    if before.last() is Calls {
                        assert(now.drop_last() =~= before.drop_last());
                    } else {
                        assert(now.drop_last() =~= before);
                        assert(Seq::<JsonV>::empty().push(call@) =~= seq![call@]);
                    }
                }
                calls.push(call);
            },
            other => {
                if calls.len() > 0 {
                    let msg = calls_message(calls);
                    proof {
                        lemma_list_push(done@, msg);
                    }
                    done.push(msg);
                    calls = Vec::new();
                }
                proof {
                    assert(list_view(calls@) =~= Seq::empty());
                    assert(list_view(done@) =~= before.map_values(
                        |c: ChatMessageV| chat_message_view(c),
                    ));
                }
                let msg = match other {
                    Item::User { text: t } => message("user", t.as_str()),
                    Item::Assistant { text: t } => message("assistant", t.as_str()),
                    Item::ToolOutput { call_id, output, .. } => object3(
                        "role",
                        text("tool"),
                        "tool_call_id",
                        text(call_id.as_str()),
                        "content",
                        text(output.as_str()),
                    ),
                    _ => Json::Null,
                };
                proof {
                    lemma_list_push(done@, msg);
                    assert(now =~= before.push(now.last()));
                    assert(chat_done(now) =~= list_view(done@).push(msg@));
                }
                done.push(msg);
            },
        }
        i += 1;
    }
    proof {
        assert(h.take(i as int) =~= h);
        lemma_chat_messages(system@, h);
        assert(list_view(calls@).len() == calls@.len());
    }
    let ghost m = chat_messages(system@, h);
    if calls.len() > 0 {
        let msg = calls_message(calls);
        proof {
            lemma_list_push(done@, msg);
            assert(m =~= m.drop_last().push(m.last()));
        }
        done.push(msg);
    }
    assert(list_view(done@) =~= chat_history_view(system@, h));
    done
}

/// An item on the responses wire.
pub open spec fn response_item(i: ItemV) -> JsonV {
    match i {
        ItemV::User { text } => response_message("user"@, "input_text"@, text),
        ItemV::Assistant { text } => response_message("assistant"@, "output_text"@, text),
        ItemV::ToolCall { call_id, name, args } => JsonV::Object(
            seq![
                ("type"@, JsonV::Text("function_call"@)),
                ("call_id"@, JsonV::Text(call_id)),
                ("name"@, JsonV::Text(name)),
                ("arguments"@, JsonV::Text(json_printed(json_normal(args)))),
            ],
        ),
        ItemV::ToolOutput { call_id, output, .. } => JsonV::Object(
            seq![
                ("type"@, JsonV::Text("function_call_output"@)),
                ("call_id"@, JsonV::Text(call_id)),
                ("output"@, JsonV::Text(output)),
            ],
        ),
    }
}

pub open spec fn response_message(role: Seq<char>, kind: Seq<char>, said: Seq<char>) -> JsonV {
    JsonV::Object(
        seq![
            ("type"@, JsonV::Text("message"@)),
            ("role"@, JsonV::Text(role)),
            (
                "content"@,
                JsonV::List(
                    seq![
                        JsonV::Object(
                            seq![("type"@, JsonV::Text(kind)), ("text"@, JsonV::Text(said))],
                        ),
                    ],
                ),
            ),
        ],
    )
}

fn response_said(role: &str, kind: &str, said: &str) -> (r: Json)
    ensures
        r@ == response_message(role@, kind@, said@),
{
    object3(
        "type",
        text("message"),
        "role",
        text(role),
        "content",
        list1(object2("type", text(kind), "text", text(said))),
    )
}

/// The history in the form of the responses wire.
pub fn responses_history(history: &Vec<Item>) -> (r: Vec<Json>)
    ensures
        list_view(r@) == items_view(history@).map_values(|i: ItemV| response_item(i)),
{
    let ghost want = items_view(history@).map_values(|i: ItemV| response_item(i));
    let mut out: Vec<Json> = Vec::new();
    let mut i: usize = 0;
    assert(list_view(out@) =~= want.take(0));
    while i < history.len()
        invariant
            i <= history@.len(),
            want == items_view(history@).map_values(|i: ItemV| response_item(i)),
            list_view(out@) == want.take(i as int),
        decreases history.len() - i,
    {
        let j = match &history[i] {
            Item::User { text: t } => response_said("user", "input_text", t.as_str()),
            Item::Assistant { text: t } => response_said("assistant", "output_text", t.as_str()),
            Item::ToolCall { call_id, name, args } => object4(
                "type",
                text("function_call"),
                "call_id",
                text(call_id.as_str()),
                "name",
                text(name.as_str()),
                "arguments",
                text(args.to_text().as_str()),
            ),
            Item::ToolOutput { call_id, output, .. } => object3(
                "type",
                text("function_call_output"),
                "call_id",
                text(call_id.as_str()),
                "output",
                text(output.as_str()),
            ),
        };
        proof {
            lemma_list_push(out@, j);
            assert(items_view(history@)[i as int] == history@[i as int]@);
            assert(want.take(i + 1) =~= want.take(i as int).push(j@));
        }
        out.push(j);
        i += 1;
    }
    assert(want.take(i as int) =~= want);
    out
}

/// The body of a request in a turn: the whole history and all tools, as a stream.
pub open spec fn turn_body_view(
    wire: WireApi,
    model: Seq<char>,
    system: Seq<char>,
    h: Seq<ItemV>,
    tools: Seq<ToolV>,
) -> JsonV {
    let body = match wire {
        WireApi::Messages => JsonV::Object(
            seq![
                ("model"@, JsonV::Text(model)),
                ("system"@, JsonV::Text(system)),
                ("max_tokens"@, nat_view(AGENT_MAX_TOKENS)),
                ("messages"@, JsonV::List(messages_history_view(h))),
                ("tools"@, turn_tools(wire, tools)),
            ],
        ),
        WireApi::ChatCompletions => JsonV::Object(
            seq![
                ("model"@, JsonV::Text(model)),
                ("messages"@, JsonV::List(chat_history_view(system, h))),
                ("tools"@, turn_tools(wire, tools)),
            ],
        ),
        WireApi::Responses => JsonV::Object(
            seq![
                ("model"@, JsonV::Text(model)),
                ("instructions"@, JsonV::Text(system)),
                ("input"@, JsonV::List(h.map_values(|i: ItemV| response_item(i)))),
                ("tools"@, turn_tools(wire, tools)),
            ],
        ),
    };
    set_member(body, "stream"@, JsonV::Bool(true))
}

/// The body of a request in a turn.
pub fn turn_body(
    wire: WireApi,
    model: &str,
    system: &str,
    history: &Vec<Item>,
    tools: &Vec<Tool>,
) -> (r: Json)
    ensures
        r@ == turn_body_view(wire, model@, system@, items_view(history@), tools_view(tools@)),
{
    let body = match wire {
        WireApi::Messages => object5(
            "model",
            text(model),
            "system",
            text(system),
            "max_tokens",
            natural(AGENT_MAX_TOKENS),
            "messages",
            list(messages_history(history)),
            "tools",
            turn_tools_payload(wire, tools),
        ),
        WireApi::ChatCompletions => object3(
            "model",
            text(model),
            "messages",
            list(chat_history(system, history)),
            "tools",
            turn_tools_payload(wire, tools),
        ),
        WireApi::Responses => object4(
            "model",
            text(model),
            "instructions",
            text(system),
            "input",
            list(responses_history(history)),
            "tools",
            turn_tools_payload(wire, tools),
        ),
    };
    streamed(body)
}

} // verus!
