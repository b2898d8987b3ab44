//! What goes out on each wire, and that it reads back.

use crate::agent::ItemV;
use crate::fetch::law_put_member_is_found;
use crate::json::laws::{
    below, lemma_five_members, lemma_four_members, lemma_three_members, lemma_two_members,
};
use crate::json::{json_normal, json_printed, member, nat_view, JsonV};
use crate::llm::replies::{
    chat_call_read, chat_completion, completion_of, content_read, is_success, json_or_null,
    messages_completion, outputs_read, responses_completion, tool_use_read,
};
use crate::llm::{
    auth_headers, chat_call, chat_history_view, chat_message_view, chat_messages, env_headers,
    headers_of, is_auth_status, item_block, item_role, pairs_or_none, question_body, response_item,
    role_message, tool_as_function, tool_flat, tool_with_schema, turn_body_view, turn_tools,
    wire_path, without_slashes, ChatMessageV,
};
use crate::provider::{lookup, ProviderV, WireApi};
use crate::tools::{CompletionV, ToolCallV, ToolV};
use vstd::prelude::*;

verus! {

proof fn lemma_wire_keys()
    ensures
        "model"@.len() == 5 && "model"@[0] == 'm',
        "system"@.len() == 6 && "system"@[1] == 'y',
        "stream"@.len() == 6 && "stream"@[1] == 't',
        "instructions"@.len() == 12 && "instructions"@[2] == 's',
        "input_schema"@.len() == 12 && "input_schema"@[2] == 'p',
        "tool_call_id"@.len() == 12 && "tool_call_id"@[2] == 'o',
        "input"@.len() == 5 && "input"@[0] == 'i',
        "tools"@.len() == 5 && "tools"@[0] == 't',
        "messages"@.len() == 8 && "messages"@[0] == 'm',
        "is_error"@.len() == 8 && "is_error"@[0] == 'i',
        "function"@.len() == 8 && "function"@[0] == 'f',
        "max_tokens"@.len() == 10 && "max_tokens"@[0] == 'm',
        "parameters"@.len() == 10 && "parameters"@[0] == 'p',
        "role"@.len() == 4 && "role"@[0] == 'r',
        "type"@.len() == 4 && "type"@[1] == 'y' && "type"@[0] == 't',
        "text"@.len() == 4 && "text"@[1] == 'e' && "text"@[0] == 't',
        "name"@.len() == 4 && "name"@[0] == 'n',
        "content"@.len() == 7 && "content"@[1] == 'o',
        "call_id"@.len() == 7 && "call_id"@[1] == 'a',
        "id"@.len() == 2,
        "arguments"@.len() == 9,
        "output"@.len() == 6 && "output"@[1] == 'u',
        "description"@.len() == 11 && "description"@[0] == 'd',
        "tool_use_id"@.len() == 11 && "tool_use_id"@[0] == 't',
        "tool_calls"@.len() == 10 && "tool_calls"@[0] == 't',
{
    reveal_strlit("model");
    reveal_strlit("system");
    reveal_strlit("stream");
    reveal_strlit("instructions");
    reveal_strlit("input_schema");
    reveal_strlit("tool_call_id");
    reveal_strlit("input");
    reveal_strlit("tools");
    reveal_strlit("messages");
    reveal_strlit("is_error");
    reveal_strlit("function");
    reveal_strlit("max_tokens");
    reveal_strlit("parameters");
    reveal_strlit("role");
    reveal_strlit("type");
    reveal_strlit("text");
    reveal_strlit("name");
    reveal_strlit("content");
    reveal_strlit("call_id");
    reveal_strlit("id");
    reveal_strlit("arguments");
    reveal_strlit("output");
    reveal_strlit("description");
    reveal_strlit("tool_use_id");
    reveal_strlit("tool_calls");
}

// Addresses and headers

/// A request goes to the path of its wire.
pub proof fn law_wires_have_their_paths(base: Seq<char>)
    ensures
        wire_path(WireApi::Responses) == "/responses"@,
        wire_path(WireApi::ChatCompletions) == "/chat/completions"@,
        wire_path(WireApi::Messages) == "/messages"@,
        base.len() > 0 && base.last() != '/' ==> without_slashes(base) == base && without_slashes(
            base.push('/'),
        ) == base,
{
    assert(base.push('/').drop_last() =~= base);
    reveal_with_fuel(without_slashes, 2);
}

/// The key goes as a bearer token, but for the messages wire, which has a header of its own for it
/// and one for the version.
pub proof fn law_key_goes_in_its_header(key: Seq<char>)
    ensures
        auth_headers(WireApi::Responses, key) == seq![("Authorization"@, "Bearer "@ + key)],
        auth_headers(WireApi::ChatCompletions, key) == seq![("Authorization"@, "Bearer "@ + key)],
        auth_headers(WireApi::Messages, key) == seq![
            ("x-api-key"@, key),
            ("anthropic-version"@, "2023-06-01"@),
        ],
{
}

/// The headers of a request begin with its type and the key; those of the provider follow, and then
/// those whose variable is set to something.
pub proof fn law_headers_come_in_turn(
    p: ProviderV,
    key: Seq<char>,
    env: Seq<(Seq<char>, Seq<char>)>,
)
    ensures
        ({
            let h = headers_of(p, key, env);
            let a = auth_headers(p.wire_api, key);
            let own = pairs_or_none(p.http_headers);
            let wanted = pairs_or_none(p.env_http_headers);
            let set = wanted.filter(
                |w: (Seq<char>, Seq<char>)| lookup(env, w.1) matches Some(v) && v.len() > 0,
            );
            &&& h[0] == ("Content-Type"@, "application/json"@)
            &&& h.len() == 1 + a.len() + own.len() + set.len()
            &&& h.subrange(1, 1int + a.len()) == a
            &&& h.subrange(1int + a.len(), 1int + a.len() + own.len()) == own
            &&& forall|i: int|
                0 <= i < set.len() ==> {
                    let x = #[trigger] set[i];
                    h[1 + a.len() + own.len() + i].0 == x.0 && Some(
                        h[1 + a.len() + own.len() + i].1,
                    ) == lookup(env, x.1)
                }
        }),
{
    let h = headers_of(p, key, env);
    let a = auth_headers(p.wire_api, key);
    let own = pairs_or_none(p.http_headers);
    let wanted = pairs_or_none(p.env_http_headers);
    lemma_env_headers(wanted, env);
    assert(h.subrange(1, 1int + a.len()) =~= a);
    assert(h.subrange(1int + a.len(), 1int + a.len() + own.len()) =~= own);
    let e = env_headers(wanted, env);
    assert(forall|i: int| 0 <= i < e.len() ==> h[1 + a.len() + own.len() + i] == #[trigger] e[i]);
}

proof fn lemma_env_headers(wanted: Seq<(Seq<char>, Seq<char>)>, env: Seq<(Seq<char>, Seq<char>)>)
    ensures
        ({
            let set = wanted.filter(
                |w: (Seq<char>, Seq<char>)| lookup(env, w.1) matches Some(v) && v.len() > 0,
            );
            let e = env_headers(wanted, env);
            &&& e.len() == set.len()
            &&& forall|i: int|
                0 <= i < e.len() ==> (#[trigger] e[i]).0 == set[i].0 && Some(e[i].1) == lookup(
                    env,
                    set[i].1,
                )
        }),
    decreases wanted.len(),
{
    reveal(Seq::filter);
    if wanted.len() > 0 {
        lemma_env_headers(wanted.drop_last(), env);
    }
}

/// Of the statuses only 401 and 403 mean that the key was rejected, and those from 200 to 299 a
/// success.
pub proof fn law_statuses_have_their_meaning(code: u16)
    ensures
        is_auth_status(401) && is_auth_status(403),
        code != 401 && code != 403 ==> !is_auth_status(code),
        is_success(200) && is_success(299) && !is_success(199) && !is_success(300),
        is_success(code) ==> !is_auth_status(code),
{
}

// One question

/// A question goes out with the model, the system's text and the question, each in the member that
/// its wire has for it. On the chat wire the system's text is a message of its own, and there is
/// none without one.
pub proof fn law_question_goes_out(model: Seq<char>, system: Seq<char>, user: Seq<char>)
    ensures
        ({
            let r = question_body(WireApi::Responses, model, Some(system), user);
            &&& member(r, "model"@) == Some(JsonV::Text(model))
            &&& member(r, "instructions"@) == Some(JsonV::Text(system))
            &&& member(r, "input"@) == Some(JsonV::Text(user))
        }),
        ({
            let c = question_body(WireApi::ChatCompletions, model, Some(system), user);
            &&& member(c, "model"@) == Some(JsonV::Text(model))
            &&& member(c, "messages"@) matches Some(JsonV::List(v)) && v.len() == 2 && member(
                v[0],
                "role"@,
            ) == Some(JsonV::Text("system"@)) && member(v[0], "content"@) == Some(
                JsonV::Text(system),
            ) && member(v[1], "role"@) == Some(JsonV::Text("user"@)) && member(v[1], "content"@)
                == Some(JsonV::Text(user))
        }),
        ({
            let c = question_body(WireApi::ChatCompletions, model, None, user);
            &&& member(c, "model"@) == Some(JsonV::Text(model))
            &&& member(c, "messages"@) matches Some(JsonV::List(v)) && v.len() == 1 && member(
                v[0],
                "role"@,
            ) == Some(JsonV::Text("user"@)) && member(v[0], "content"@) == Some(JsonV::Text(user))
        }),
        ({
            let m = question_body(WireApi::Messages, model, Some(system), user);
            &&& member(m, "model"@) == Some(JsonV::Text(model))
            &&& member(m, "system"@) == Some(JsonV::Text(system))
            &&& member(m, "max_tokens"@) == Some(nat_view(4096))
            &&& member(m, "messages"@) matches Some(JsonV::List(v)) && v.len() == 1 && member(
                v[0],
                "role"@,
            ) == Some(JsonV::Text("user"@)) && member(v[0], "content"@) == Some(JsonV::Text(user))
        }),
{
    lemma_wire_keys();
    lemma_three_members(
        ("model"@, JsonV::Text(model)),
        ("instructions"@, JsonV::Text(system)),
        ("input"@, JsonV::Text(user)),
    );
    lemma_two_members(("role"@, JsonV::Text("user"@)), ("content"@, JsonV::Text(user)));
    lemma_two_members(("role"@, JsonV::Text("system"@)), ("content"@, JsonV::Text(system)));
    let q = role_message("user"@, user);
    let s = role_message("system"@, system);
    lemma_two_members(("model"@, JsonV::Text(model)), ("messages"@, JsonV::List(seq![s, q])));
    lemma_two_members(("model"@, JsonV::Text(model)), ("messages"@, JsonV::List(seq![q])));
    lemma_four_members(
        ("model"@, JsonV::Text(model)),
        ("system"@, JsonV::Text(system)),
        ("max_tokens"@, nat_view(4096)),
        ("messages"@, JsonV::List(seq![q])),
    );
}

// A turn

/// A request of a turn goes out as a stream, with the model, the system's text, the whole history
/// and the tools, each in the member that its wire has for it.
pub proof fn law_turn_goes_out(
    model: Seq<char>,
    system: Seq<char>,
    h: Seq<ItemV>,
    tools: Seq<ToolV>,
)
    ensures
        ({
            let r = turn_body_view(WireApi::Responses, model, system, h, tools);
            &&& member(r, "stream"@) == Some(JsonV::Bool(true))
            &&& member(r, "model"@) == Some(JsonV::Text(model))
            &&& member(r, "instructions"@) == Some(JsonV::Text(system))
            &&& member(r, "input"@) matches Some(JsonV::List(v)) && v.len() == h.len() && forall|
                i: int,
            |
                0 <= i < v.len() ==> #[trigger] v[i] == response_item(h[i])
            &&& member(r, "tools"@) == Some(turn_tools(WireApi::Responses, tools))
        }),
        ({
            let c = turn_body_view(WireApi::ChatCompletions, model, system, h, tools);
            &&& member(c, "stream"@) == Some(JsonV::Bool(true))
            &&& member(c, "model"@) == Some(JsonV::Text(model))
            &&& member(c, "messages"@) == Some(JsonV::List(chat_history_view(system, h)))
            &&& member(c, "tools"@) == Some(turn_tools(WireApi::ChatCompletions, tools))
        }),
        ({
            let m = turn_body_view(WireApi::Messages, model, system, h, tools);
            &&& member(m, "stream"@) == Some(JsonV::Bool(true))
            &&& member(m, "model"@) == Some(JsonV::Text(model))
            &&& member(m, "system"@) == Some(JsonV::Text(system))
            &&& member(m, "max_tokens"@) == Some(nat_view(8192))
            &&& member(m, "messages"@) == Some(
                JsonV::List(crate::llm::messages_history_view(h)),
            )
            &&& member(m, "tools"@) == Some(turn_tools(WireApi::Messages, tools))
        }),
{
    lemma_wire_keys();
    let input = h.map_values(|i: ItemV| response_item(i));
    let rt = turn_tools(WireApi::Responses, tools);
    let r = seq![
        ("model"@, JsonV::Text(model)),
        ("instructions"@, JsonV::Text(system)),
        ("input"@, JsonV::List(input)),
        ("tools"@, rt),
    ];
    lemma_four_members(r[0], r[1], r[2], r[3]);
    lemma_streamed(r);
    let ct = turn_tools(WireApi::ChatCompletions, tools);
    let c = seq![
        ("model"@, JsonV::Text(model)),
        ("messages"@, JsonV::List(chat_history_view(system, h))),
        ("tools"@, ct),
    ];
    lemma_three_members(c[0], c[1], c[2]);
    lemma_streamed(c);
    let mt = turn_tools(WireApi::Messages, tools);
    let m = seq![
        ("model"@, JsonV::Text(model)),
        ("system"@, JsonV::Text(system)),
        ("max_tokens"@, nat_view(8192)),
        ("messages"@, JsonV::List(crate::llm::messages_history_view(h))),
        ("tools"@, mt),
    ];
    lemma_five_members(m[0], m[1], m[2], m[3], m[4]);
    lemma_streamed(m);
    assert(JsonV::Object(seq![r[0], r[1], r[2], r[3]]) == JsonV::Object(r));
    assert(JsonV::Object(seq![c[0], c[1], c[2]]) == JsonV::Object(c));
    assert(JsonV::Object(seq![m[0], m[1], m[2], m[3], m[4]]) == JsonV::Object(m));
}

proof fn lemma_streamed(pairs: Seq<(Seq<char>, JsonV)>)
    ensures
        ({
            let j = crate::json::set_member(JsonV::Object(pairs), "stream"@, JsonV::Bool(true));
            &&& member(j, "stream"@) == Some(JsonV::Bool(true))
            &&& forall|k: Seq<char>|
                k != "stream"@ ==> #[trigger] member(j, k) == member(JsonV::Object(pairs), k)
        }),
{
    let j = crate::json::set_member(JsonV::Object(pairs), "stream"@, JsonV::Bool(true));
    law_put_member_is_found(pairs, "stream"@, JsonV::Bool(true), "stream"@);
    assert forall|k: Seq<char>| k != "stream"@ implies #[trigger] member(j, k) == member(
        JsonV::Object(pairs),
        k,
    ) by {
        law_put_member_is_found(pairs, "stream"@, JsonV::Bool(true), k);
    }
}

/// A tool goes out with its name, its description and its parameters: the messages wire calls these
/// a schema, the chat wire has an object of its own for a function, and the responses wire has all
/// beside the type.
pub proof fn law_tools_go_out(t: ToolV)
    ensures
        ({
            let m = tool_with_schema(t);
            &&& member(m, "name"@) == Some(JsonV::Text(t.name))
            &&& member(m, "description"@) == Some(JsonV::Text(t.description))
            &&& member(m, "input_schema"@) == Some(t.parameters)
        }),
        ({
            let c = tool_as_function(t);
            let f = member(c, "function"@);
            &&& member(c, "type"@) == Some(JsonV::Text("function"@))
            &&& below(f, "name"@) == Some(JsonV::Text(t.name))
            &&& below(f, "description"@) == Some(JsonV::Text(t.description))
            &&& below(f, "parameters"@) == Some(t.parameters)
        }),
        ({
            let r = tool_flat(t);
            &&& member(r, "type"@) == Some(JsonV::Text("function"@))
            &&& member(r, "name"@) == Some(JsonV::Text(t.name))
            &&& member(r, "description"@) == Some(JsonV::Text(t.description))
            &&& member(r, "parameters"@) == Some(t.parameters)
        }),
{
    lemma_wire_keys();
    let name = ("name"@, JsonV::Text(t.name));
    let description = ("description"@, JsonV::Text(t.description));
    let kind = ("type"@, JsonV::Text("function"@));
    lemma_three_members(name, description, ("input_schema"@, t.parameters));
    lemma_three_members(name, description, ("parameters"@, t.parameters));
    lemma_two_members(
        kind,
        ("function"@, JsonV::Object(seq![name, description, ("parameters"@, t.parameters)])),
    );
    lemma_four_members(kind, name, description, ("parameters"@, t.parameters));
}

// Reading back

/// A call that goes out on the chat wire reads as the same call: it has the same id and name, and
/// for arguments what their text reads as.
pub proof fn law_chat_call_reads_back(id: Seq<char>, name: Seq<char>, args: JsonV)
    ensures
        chat_call_read(chat_call(id, name, args)) == Some(
            ToolCallV { id, name, arguments: json_or_null(json_printed(json_normal(args))) },
        ),
{
    lemma_wire_keys();
    let n = ("name"@, JsonV::Text(name));
    let a = ("arguments"@, JsonV::Text(json_printed(json_normal(args))));
    lemma_two_members(n, a);
    lemma_three_members(
        ("id"@, JsonV::Text(id)),
        ("type"@, JsonV::Text("function"@)),
        ("function"@, JsonV::Object(seq![n, a])),
    );
    let j = chat_call(id, name, args);
    assert(member(j, "id"@) == Some(JsonV::Text(id)));
    assert(member(j, "function"@) == Some(JsonV::Object(seq![n, a])));
    assert(member(JsonV::Object(seq![n, a]), "name"@) == Some(JsonV::Text(name)));
}

/// A call that goes out on the responses wire reads as the same call.
pub proof fn law_response_call_reads_back(id: Seq<char>, name: Seq<char>, args: JsonV, reply: JsonV)
    requires
        member(reply, "output"@) == Some(
            JsonV::List(
                seq![response_item(ItemV::ToolCall { call_id: id, name, args })],
            ),
        ),
    ensures
        responses_completion(reply) == Some(
            CompletionV::ToolCalls(
                seq![
                    ToolCallV { id, name, arguments: json_or_null(json_printed(json_normal(args))) },
                ],
            ),
        ),
{
    lemma_wire_keys();
    let j = response_item(ItemV::ToolCall { call_id: id, name, args });
    lemma_four_members(
        ("type"@, JsonV::Text("function_call"@)),
        ("call_id"@, JsonV::Text(id)),
        ("name"@, JsonV::Text(name)),
        ("arguments"@, JsonV::Text(json_printed(json_normal(args)))),
    );
    assert(member(j, "id"@) is None);
    assert(member(j, "content"@) is None);
    assert(member(j, "type"@) == Some(JsonV::Text("function_call"@)));
    let items = seq![j];
    assert(items.drop_last() =~= Seq::empty());
    assert(items.last() == j);
    assert(outputs_read(items.drop_last()) == Some(
        (Seq::<ToolCallV>::empty(), Seq::<char>::empty()),
    ));
    let c = ToolCallV { id, name, arguments: json_or_null(json_printed(json_normal(args))) };
    let read = outputs_read(items)->0;
    assert(read.0 =~= seq![c]);
}

/// A call that goes out on the messages wire reads as the same call; one without arguments has no
/// members then.
pub proof fn law_block_call_reads_back(id: Seq<char>, name: Seq<char>, args: JsonV, reply: JsonV)
    requires
        member(reply, "content"@) == Some(
            JsonV::List(seq![item_block(ItemV::ToolCall { call_id: id, name, args })]),
        ),
    ensures
        messages_completion(reply) == Some(
            CompletionV::ToolCalls(
                seq![
                    ToolCallV {
                        id,
                        name,
                        arguments: if args is Null {
                            JsonV::Object(Seq::empty())
                        } else {
                            args
                        },
                    },
                ],
            ),
        ),
{
    lemma_wire_keys();
    let j = item_block(ItemV::ToolCall { call_id: id, name, args });
    let input = if args is Null {
        JsonV::Object(Seq::empty())
    } else {
        args
    };
    lemma_four_members(
        ("type"@, JsonV::Text("tool_use"@)),
        ("id"@, JsonV::Text(id)),
        ("name"@, JsonV::Text(name)),
        ("input"@, input),
    );
    assert(member(j, "type"@) == Some(JsonV::Text("tool_use"@)));
    assert(member(j, "input"@) == Some(input));
    assert(member(j, "id"@) == Some(JsonV::Text(id)));
    assert(member(j, "name"@) == Some(JsonV::Text(name)));
    let items = seq![j];
    assert(items.drop_last() =~= Seq::empty());
    assert(items.last() == j);
    let c = ToolCallV { id, name, arguments: input };
    assert(tool_use_read(j) == Some(c));
    assert(content_read(items.drop_last()) == (Seq::<ToolCallV>::empty(), Seq::<char>::empty()));
    assert(content_read(items).0 =~= seq![c]);
}

/// What was said reads back on the messages and the responses wire, and the output of a tool goes
/// out under the id of its call on every wire.
pub proof fn law_texts_and_outputs_go_out(text: Seq<char>, id: Seq<char>, failed: bool)
    ensures
        ({
            let b = item_block(ItemV::User { text });
            member(b, "type"@) == Some(JsonV::Text("text"@)) && member(b, "text"@) == Some(
                JsonV::Text(text),
            )
        }),
        item_block(ItemV::Assistant { text }) == item_block(ItemV::User { text }),
        item_role(ItemV::User { text }) == "user"@,
        item_role(ItemV::Assistant { text }) == "assistant"@,
        forall|name: Seq<char>, args: JsonV|
            #[trigger] item_role(ItemV::ToolCall { call_id: id, name, args }) == "assistant"@,
        item_role(ItemV::ToolOutput { call_id: id, output: text, is_error: failed }) == "user"@,
        ({
            let b = item_block(ItemV::ToolOutput { call_id: id, output: text, is_error: failed });
            &&& member(b, "type"@) == Some(JsonV::Text("tool_result"@))
            &&& member(b, "tool_use_id"@) == Some(JsonV::Text(id))
            &&& member(b, "content"@) == Some(JsonV::Text(text))
            &&& member(b, "is_error"@) == Some(JsonV::Bool(failed))
        }),
        ({
            let b = response_item(
                ItemV::ToolOutput { call_id: id, output: text, is_error: failed },
            );
            &&& member(b, "type"@) == Some(JsonV::Text("function_call_output"@))
            &&& member(b, "call_id"@) == Some(JsonV::Text(id))
            &&& member(b, "output"@) == Some(JsonV::Text(text))
        }),
        said_in(response_item(ItemV::User { text }), "user"@, "input_text"@, text),
        said_in(response_item(ItemV::Assistant { text }), "assistant"@, "output_text"@, text),
{
    lemma_wire_keys();
    lemma_two_members(("type"@, JsonV::Text("text"@)), ("text"@, JsonV::Text(text)));
    lemma_four_members(
        ("type"@, JsonV::Text("tool_result"@)),
        ("tool_use_id"@, JsonV::Text(id)),
        ("content"@, JsonV::Text(text)),
        ("is_error"@, JsonV::Bool(failed)),
    );
    lemma_three_members(
        ("type"@, JsonV::Text("function_call_output"@)),
        ("call_id"@, JsonV::Text(id)),
        ("output"@, JsonV::Text(text)),
    );
    lemma_said("user"@, "input_text"@, text);
    lemma_said("assistant"@, "output_text"@, text);
}

/// Whether an item of the responses wire is a message of a role with one text of a kind.
pub open spec fn said_in(j: JsonV, role: Seq<char>, kind: Seq<char>, text: Seq<char>) -> bool {
    &&& member(j, "type"@) == Some(JsonV::Text("message"@))
    &&& member(j, "role"@) == Some(JsonV::Text(role))
    &&& member(j, "content"@) matches Some(JsonV::List(v)) && v.len() == 1 && member(v[0], "type"@)
        == Some(JsonV::Text(kind)) && member(v[0], "text"@) == Some(JsonV::Text(text))
}

proof fn lemma_said(role: Seq<char>, kind: Seq<char>, text: Seq<char>)
    ensures
        said_in(crate::llm::response_message(role, kind, text), role, kind, text),
{
    lemma_wire_keys();
    let block = JsonV::Object(seq![("type"@, JsonV::Text(kind)), ("text"@, JsonV::Text(text))]);
    lemma_two_members(("type"@, JsonV::Text(kind)), ("text"@, JsonV::Text(text)));
    lemma_three_members(
        ("type"@, JsonV::Text("message"@)),
        ("role"@, JsonV::Text(role)),
        ("content"@, JsonV::List(seq![block])),
    );
}

/// On the chat wire the system's text comes first. What was said and the output of a tool are
/// messages of their own, behind the others; a call joins the message of the calls right before it,
/// or begins one.
pub proof fn law_chat_history_grows(
    system: Seq<char>,
    h: Seq<ItemV>,
    text: Seq<char>,
    id: Seq<char>,
)
    ensures
        chat_messages(system, Seq::empty()).len() == 1,
        ({
            let m = chat_history_view(system, Seq::empty())[0];
            member(m, "role"@) == Some(JsonV::Text("system"@)) && member(m, "content"@) == Some(
                JsonV::Text(system),
            )
        }),
        ({
            let before = chat_messages(system, h);
            let user = chat_messages(system, h.push(ItemV::User { text }));
            let said = chat_messages(system, h.push(ItemV::Assistant { text }));
            let output = chat_messages(
                system,
                h.push(ItemV::ToolOutput { call_id: id, output: text, is_error: false }),
            );
            &&& user.drop_last() == before && said.drop_last() == before && output.drop_last()
                == before
            &&& member(chat_message_view(user.last()), "role"@) == Some(JsonV::Text("user"@))
            &&& member(chat_message_view(user.last()), "content"@) == Some(JsonV::Text(text))
            &&& member(chat_message_view(said.last()), "role"@) == Some(JsonV::Text("assistant"@))
            &&& member(chat_message_view(said.last()), "content"@) == Some(JsonV::Text(text))
            &&& member(chat_message_view(output.last()), "role"@) == Some(JsonV::Text("tool"@))
            &&& member(chat_message_view(output.last()), "tool_call_id"@) == Some(JsonV::Text(id))
            &&& member(chat_message_view(output.last()), "content"@) == Some(JsonV::Text(text))
        }),
{
    lemma_wire_keys();
    lemma_two_members(("role"@, JsonV::Text("system"@)), ("content"@, JsonV::Text(system)));
    lemma_two_members(("role"@, JsonV::Text("user"@)), ("content"@, JsonV::Text(text)));
    lemma_two_members(("role"@, JsonV::Text("assistant"@)), ("content"@, JsonV::Text(text)));
    lemma_three_members(
        ("role"@, JsonV::Text("tool"@)),
        ("tool_call_id"@, JsonV::Text(id)),
        ("content"@, JsonV::Text(text)),
    );
    let u = h.push(ItemV::User { text });
    let a = h.push(ItemV::Assistant { text });
    let o = h.push(ItemV::ToolOutput { call_id: id, output: text, is_error: false });
    assert(u.drop_last() =~= h && a.drop_last() =~= h && o.drop_last() =~= h);
    let before = chat_messages(system, h);
    assert(chat_messages(system, u).drop_last() =~= before);
    assert(chat_messages(system, a).drop_last() =~= before);
    assert(chat_messages(system, o).drop_last() =~= before);
}

/// A call on the chat wire stands in the last message, behind the calls right before it, where
/// there are any.
pub proof fn law_chat_calls_share_a_message(
    system: Seq<char>,
    h: Seq<ItemV>,
    id: Seq<char>,
    name: Seq<char>,
    args: JsonV,
)
    ensures
        ({
            let before = chat_messages(system, h);
            let now = chat_messages(system, h.push(ItemV::ToolCall { call_id: id, name, args }));
            let m = chat_message_view(now.last());
            let joins = h.len() > 0 && h.last() is ToolCall;
            &&& now.len() == before.len() + if joins {
                0int
            } else {
                1
            }
            &&& member(m, "role"@) == Some(JsonV::Text("assistant"@))
            &&& member(m, "tool_calls"@) matches Some(JsonV::List(v)) && v.len() > 0 && v.last()
                == chat_call(id, name, args)
        }),
{
    lemma_wire_keys();
    let n = h.push(ItemV::ToolCall { call_id: id, name, args });
    assert(n.drop_last() =~= h);
    let now = chat_messages(system, n);
    let before = chat_messages(system, h);
    lemma_last_message(system, h);
    match now.last() {
        ChatMessageV::Calls(calls) => {
            lemma_three_members(
                ("role"@, JsonV::Text("assistant"@)),
                ("content"@, JsonV::Null),
                ("tool_calls"@, JsonV::List(calls)),
            );
        },
        _ => {},
    }
}

proof fn lemma_last_message(system: Seq<char>, h: Seq<ItemV>)
    ensures
        chat_messages(system, h).len() > 0,
        chat_messages(system, h).last() is Calls <==> h.len() > 0 && h.last() is ToolCall,
    decreases h.len(),
{
    if h.len() > 0 {
        lemma_last_message(system, h.drop_last());
    }
}

// Completions

/// Calls are a completion whatever is said beside them; without calls what is said is one, where
/// anything is.
pub proof fn law_calls_win_over_text(calls: Seq<ToolCallV>, said: Seq<char>)
    ensures
        calls.len() > 0 ==> completion_of(calls, said) == Some(CompletionV::ToolCalls(calls)),
        calls.len() == 0 && said.len() > 0 ==> completion_of(calls, said) == Some(
            CompletionV::Text(said),
        ),
        calls.len() == 0 && said.len() == 0 ==> completion_of(calls, said) is None,
{
}

/// A reply of the chat wire is what the message of its first choice holds: its calls that read, or
/// its content.
pub proof fn law_first_choice_counts(
    j: JsonV,
    choices: Seq<JsonV>,
    m: JsonV,
    said: Seq<char>,
)
    requires
        member(j, "choices"@) == Some(JsonV::List(choices)),
        choices.len() > 0,
        member(choices[0], "message"@) == Some(m),
        member(m, "content"@) == Some(JsonV::Text(said)),
        said.len() > 0,
    ensures
        member(m, "tool_calls"@) is None ==> chat_completion(j) == Some(CompletionV::Text(said)),
        forall|id: Seq<char>, name: Seq<char>, args: JsonV|
            member(m, "tool_calls"@) == Some(JsonV::List(seq![#[trigger] chat_call(id, name, args)]))
                ==> chat_completion(j) == Some(
                CompletionV::ToolCalls(
                    seq![
                        ToolCallV {
                            id,
                            name,
                            arguments: json_or_null(json_printed(json_normal(args))),
                        },
                    ],
                ),
            ),
{
    assert forall|id: Seq<char>, name: Seq<char>, args: JsonV|
        member(m, "tool_calls"@) == Some(
            JsonV::List(seq![#[trigger] chat_call(id, name, args)]),
        ) implies chat_completion(j) == Some(
        CompletionV::ToolCalls(
            seq![
                ToolCallV { id, name, arguments: json_or_null(json_printed(json_normal(args))) },
            ],
        ),
    ) by {
        law_chat_call_reads_back(id, name, args);
        let items = seq![chat_call(id, name, args)];
        assert(items.drop_last() =~= Seq::empty());
        assert(items.last() == chat_call(id, name, args));
        reveal_with_fuel(crate::llm::replies::chat_calls_read, 2);
        assert(crate::llm::replies::chat_calls_read(items) =~= seq![
            ToolCallV { id, name, arguments: json_or_null(json_printed(json_normal(args))) },
        ]);
    }
}

} // verus!
