//! What the replies of a provider say: an answer, or calls of tools.

use crate::json::{
    find_in, find_key, json_parsed, lemma_list_view, list_in, list_view, member, opt_json,
    str_or_empty, text_in, text_or_empty, Json, JsonV,
};
use crate::error::Error;
use crate::llm::{is_auth_status, status_error, status_text, truncate, wire_api_name, wire_name};
use crate::provider::WireApi;
use crate::records::{field, field_of, is_record, record, text_field, text_or_missing};
use crate::strs::{cat2, cat4, opt_view, push_char, same};
use crate::text::cut_marked;
use crate::tools::{calls_view, opt_completion, Completion, CompletionV, ToolCall, ToolCallV};
use vstd::prelude::*;

pub mod laws;
use vstd::string::StringExecFns;

verus! {

// Blocks: a kind and a text

/// The kind and the text of a block.
pub open spec fn block_said(j: JsonV) -> Option<(Seq<char>, Seq<char>)> {
    if is_record(j, 2) {
        match (text_or_missing(field(j, "type"@, 0)), text_or_missing(field(j, "text"@, 1))) {
            (Some(kind), Some(said)) => Some((kind, said)),
            _ => None,
        }
    } else {
        None
    }
}

/// The blocks of a list, where every one of them reads.
pub open spec fn blocks_of(items: Seq<JsonV>) -> Option<Seq<(Seq<char>, Seq<char>)>>
    decreases items.len(),
{
    if items.len() == 0 {
        Some(Seq::empty())
    } else {
        match (blocks_of(items.drop_last()), block_said(items.last())) {
            (Some(before), Some(b)) => Some(before.push(b)),
            _ => None,
        }
    }
}

/// The blocks of a list that may be missing.
pub open spec fn blocks_or_missing(o: Option<JsonV>) -> Option<Seq<(Seq<char>, Seq<char>)>> {
    match o {
        None => Some(Seq::empty()),
        Some(JsonV::List(items)) => blocks_of(items),
        Some(_) => None,
    }
}

proof fn lemma_blocks_prefix(items: Seq<JsonV>, n: int)
    requires
        0 <= n <= items.len(),
        blocks_of(items.take(n)) is None,
    ensures
        blocks_of(items) is None,
    decreases items.len() - n,
{
    if n < items.len() {
        assert(items.take(n + 1).drop_last() =~= items.take(n));
        lemma_blocks_prefix(items, n + 1);
    } else {
        assert(items.take(n) =~= items);
    }
}

pub open spec fn said_view(v: Seq<(String, String)>) -> Seq<(Seq<char>, Seq<char>)> {
    v.map_values(|p: (String, String)| (p.0@, p.1@))
}

fn read_block(j: &Json) -> (r: Option<(String, String)>)
    ensures
        match r {
            Some(b) => block_said(j@) == Some((b.0@, b.1@)),
            None => block_said(j@) is None,
        },
{
    if !record(j, 2) {
        return None;
    }
    match (text_field(field_of(j, "type", 0)), text_field(field_of(j, "text", 1))) {
        (Some(kind), Some(said)) => Some((kind, said)),
        _ => None,
    }
}

fn read_blocks(o: Option<&Json>) -> (r: Option<Vec<(String, String)>>)
    ensures
        match r {
            Some(v) => blocks_or_missing(opt_json(o)) == Some(said_view(v@)),
            None => blocks_or_missing(opt_json(o)) is None,
        },
{
    let mut out: Vec<(String, String)> = Vec::new();
    assert(said_view(out@) =~= Seq::empty());
    match o {
        None => Some(out),
        Some(j) => match j.as_array() {
            None => None,
            Some(items) => {
                let ghost all = list_view(items@);
                let mut i: usize = 0;
                while i < items.len()
                    invariant
                        i <= items@.len(),
                        all == list_view(items@),
                        list_in(opt_json(o)) == Some(all),
                        blocks_of(all.take(i as int)) == Some(said_view(out@)),
                    decreases items.len() - i,
                {
                    assert(all.take(i + 1).drop_last() =~= all.take(i as int));
                    assert(all[i as int] == items@[i as int]@);
                    match read_block(&items[i]) {
                        None => {
                            proof {
                                lemma_blocks_prefix(all, i + 1);
                            }
                            return None;
                        },
                        Some(b) => {
                            assert(said_view(out@.push(b)) =~= said_view(out@).push(
                                (b.0@, b.1@),
                            ));
                            out.push(b);
                        },
                    }
                    i += 1;
                }
                assert(all.take(i as int) =~= all);
                Some(out)
            },
        },
    }
}

/// The text of the first block of this kind or of none.
pub open spec fn first_said(blocks: Seq<(Seq<char>, Seq<char>)>, kind: Seq<char>) -> Option<
    Seq<char>,
>
    decreases blocks.len(),
{
    if blocks.len() == 0 {
        None
    } else if blocks[0].0 == kind || blocks[0].0.len() == 0 {
        Some(blocks[0].1)
    } else {
        first_said(blocks.drop_first(), kind)
    }
}

fn first_text(blocks: &Vec<(String, String)>, kind: &str) -> (r: Option<String>)
    ensures
        opt_view(r) == first_said(said_view(blocks@), kind@),
{
    let ghost all = said_view(blocks@);
    let mut i: usize = 0;
    assert(all.skip(0) =~= all);
    while i < blocks.len()
        invariant
            i <= blocks@.len(),
            all == said_view(blocks@),
            first_said(all, kind@) == first_said(all.skip(i as int), kind@),
        decreases blocks.len() - i,
    {
        assert(all.skip(i as int).drop_first() =~= all.skip(i + 1));
        assert(all[i as int] == (blocks@[i as int].0@, blocks@[i as int].1@));
        if same(blocks[i].0.as_str(), kind) || blocks[i].0.as_str().is_empty() {
            return Some(blocks[i].1.clone());
        }
        i += 1;
    }
    None
}

// Plain answers

/// The blocks of one output of the responses wire.
pub open spec fn output_blocks(j: JsonV) -> Option<Seq<(Seq<char>, Seq<char>)>> {
    if is_record(j, 1) {
        blocks_or_missing(field(j, "content"@, 0))
    } else {
        None
    }
}

/// The blocks of all outputs, where every one of them reads.
pub open spec fn outputs_blocks(items: Seq<JsonV>) -> Option<Seq<(Seq<char>, Seq<char>)>>
    decreases items.len(),
{
    if items.len() == 0 {
        Some(Seq::empty())
    } else {
        match (outputs_blocks(items.drop_last()), output_blocks(items.last())) {
            (Some(before), Some(b)) => Some(before + b),
            _ => None,
        }
    }
}

proof fn lemma_outputs_prefix(items: Seq<JsonV>, n: int)
    requires
        0 <= n <= items.len(),
        outputs_blocks(items.take(n)) is None,
    ensures
        outputs_blocks(items) is None,
    decreases items.len() - n,
{
    if n < items.len() {
        assert(items.take(n + 1).drop_last() =~= items.take(n));
        lemma_outputs_prefix(items, n + 1);
    } else {
        assert(items.take(n) =~= items);
    }
}

/// The content of one choice of the chat wire.
pub open spec fn choice_content(j: JsonV) -> Option<Seq<char>> {
    if is_record(j, 1) {
        match field(j, "message"@, 0) {
            Some(m) => if is_record(m, 1) {
                text_or_missing(field(m, "content"@, 0))
            } else {
                None
            },
            None => None,
        }
    } else {
        None
    }
}

/// The answer in a reply.
pub open spec fn assistant_said(wire: WireApi, j: JsonV) -> Option<Seq<char>> {
    match wire {
        WireApi::Responses => if is_record(j, 1) {
            match list_in(field(j, "output"@, 0)) {
                Some(items) => match outputs_blocks(items) {
                    Some(blocks) => first_said(blocks, "output_text"@),
                    None => None,
                },
                None => None,
            }
        } else {
            None
        },
        WireApi::ChatCompletions => if is_record(j, 1) {
            match list_in(field(j, "choices"@, 0)) {
                Some(items) => if items.len() > 0 && (forall|i: int|
                    0 <= i < items.len() ==> choice_content(#[trigger] items[i]) is Some) {
                    choice_content(items[0])
                } else {
                    None
                },
                None => None,
            }
        } else {
            None
        },
        WireApi::Messages => if is_record(j, 1) {
            match blocks_or_missing(field(j, "content"@, 0)) {
                Some(blocks) => first_said(blocks, "text"@),
                None => None,
            }
        } else {
            None
        },
    }
}

fn read_outputs(items: &Vec<Json>) -> (r: Option<Vec<(String, String)>>)
    ensures
        match r {
            Some(v) => outputs_blocks(list_view(items@)) == Some(said_view(v@)),
            None => outputs_blocks(list_view(items@)) is None,
        },
{
    let ghost all = list_view(items@);
    let mut out: Vec<(String, String)> = Vec::new();
    let mut i: usize = 0;
    assert(said_view(out@) =~= Seq::empty());
    while i < items.len()
        invariant
            i <= items@.len(),
            all == list_view(items@),
            outputs_blocks(all.take(i as int)) == Some(said_view(out@)),
        decreases items.len() - i,
    {
        assert(all.take(i + 1).drop_last() =~= all.take(i as int));
        assert(all[i as int] == items@[i as int]@);
        let blocks = if record(&items[i], 1) {
            read_blocks(field_of(&items[i], "content", 0))
        } else {
            None
        };
        match blocks {
            None => {
                proof {
                    lemma_outputs_prefix(all, i + 1);
                }
                return None;
            },
            Some(b) => {
                let mut b = b;
                let ghost had = b@;
                let ghost before = out@;
                out.append(&mut b);
                assert(said_view(out@) =~= said_view(before) + said_view(had));
            },
        }
        i += 1;
    }
    assert(all.take(i as int) =~= all);
    Some(out)
}

fn read_choice(j: &Json) -> (r: Option<String>)
    ensures
        opt_view(r) == choice_content(j@),
{
    if !record(j, 1) {
        return None;
    }
    match field_of(j, "message", 0) {
        None => None,
        Some(m) => if record(m, 1) {
            text_field(field_of(m, "content", 0))
        } else {
            None
        },
    }
}

fn read_choices(items: &Vec<Json>) -> (r: Option<String>)
    ensures
        opt_view(r) == ({
            let all = list_view(items@);
            if all.len() > 0 && (forall|i: int|
                0 <= i < all.len() ==> choice_content(#[trigger] all[i]) is Some) {
                choice_content(all[0])
            } else {
                None
            }
        }),
{
    let ghost all = list_view(items@);
    assert(all.len() == items@.len());
    if items.len() == 0 {
        return None;
    }
    let mut i: usize = 0;
    while i < items.len()
        invariant
            i <= items@.len(),
            all == list_view(items@),
            forall|k: int| 0 <= k < i ==> choice_content(#[trigger] all[k]) is Some,
        decreases items.len() - i,
    {
        assert(all[i as int] == items@[i as int]@);
        if read_choice(&items[i]).is_none() {
            return None;
        }
        i += 1;
    }
    assert(all[0] == items@[0]@);
    read_choice(&items[0])
}

/// The answer in a reply, if it has the shape that the wire wants.
pub fn assistant_text(wire: WireApi, j: &Json) -> (r: Option<String>)
    ensures
        opt_view(r) == assistant_said(wire, j@),
{
    if !record(j, 1) {
        return None;
    }
    match wire {
        WireApi::Responses => match field_of(j, "output", 0) {
            None => None,
            Some(o) => match o.as_array() {
                None => None,
                Some(items) => match read_outputs(items) {
                    None => None,
                    Some(blocks) => first_text(&blocks, "output_text"),
                },
            },
        },
        WireApi::ChatCompletions => match field_of(j, "choices", 0) {
            None => None,
            Some(o) => match o.as_array() {
                None => None,
                Some(items) => read_choices(items),
            },
        },
        WireApi::Messages => match read_blocks(field_of(j, "content", 0)) {
            None => None,
            Some(blocks) => first_text(&blocks, "text"),
        },
    }
}

/// The answer in the body of a reply; none where the body is no JSON or has another shape.
pub fn parse_assistant_text(wire: WireApi, body: &str) -> (r: Option<String>)
    ensures
        opt_view(r) == (match json_parsed(body@) {
            Ok(j) => assistant_said(wire, j),
            Err(_) => None,
        }),
{
    match Json::parse(body) {
        Ok(j) => assistant_text(wire, &j),
        Err(_) => None,
    }
}

// Completions

/// What is said so far and what is said next, on lines of their own.
pub open spec fn said_after(before: Seq<char>, said: Seq<char>) -> Seq<char> {
    if before.len() > 0 {
        before.push('\n') + said
    } else {
        before + said
    }
}

/// Calls win over an answer; with neither there is no completion.
pub open spec fn completion_of(calls: Seq<ToolCallV>, said: Seq<char>) -> Option<CompletionV> {
    if calls.len() > 0 {
        Some(CompletionV::ToolCalls(calls))
    } else if said.len() > 0 {
        Some(CompletionV::Text(said))
    } else {
        None
    }
}

fn completion(calls: Vec<ToolCall>, said: String) -> (r: Option<Completion>)
    ensures
        opt_completion(r) == completion_of(calls_view(calls@), said@),
{
    assert(calls_view(calls@).len() == calls@.len());
    if calls.len() > 0 {
        Some(Completion::ToolCalls(calls))
    } else if !said.as_str().is_empty() {
        Some(Completion::Text(said))
    } else {
        None
    }
}

fn say(said: &mut String, more: &str)
    ensures
        final(said)@ == said_after(old(said)@, more@),
{
    if !said.as_str().is_empty() {
        push_char(said, '\n');
    }
    said.append(more);
}

/// The text read as JSON, or nothing.
pub open spec fn json_or_null(s: Seq<char>) -> JsonV {
    match json_parsed(s) {
        Ok(j) => j,
        Err(_) => JsonV::Null,
    }
}

fn read_or_null(s: &str) -> (r: Json)
    ensures
        r@ == json_or_null(s@),
{
    match Json::parse(s) {
        Ok(j) => j,
        Err(_) => Json::Null,
    }
}

/// One output of the responses wire, as far as a completion needs it.
#[verifier::ext_equal]
pub struct OutputV {
    pub kind: Seq<char>,
    pub name: Seq<char>,
    pub arguments: JsonV,
    pub id: Seq<char>,
    pub content: Seq<(Seq<char>, Seq<char>)>,
}

/// The id of an output: its member `call_id` or `id`, but not both.
pub open spec fn output_id(j: JsonV) -> Option<Seq<char>> {
    match j {
        JsonV::Object(pairs) => {
            let a = find_key(pairs, "call_id"@);
            let b = find_key(pairs, "id"@);
            if a is Some && b is Some {
                None
            } else if a is Some {
                text_or_missing(a)
            } else {
                text_or_missing(b)
            }
        },
        _ => text_or_missing(field(j, "id"@, 3)),
    }
}

pub open spec fn output_read(j: JsonV) -> Option<OutputV> {
    if !is_record(j, 5) {
        None
    } else {
        let kind = text_or_missing(field(j, "type"@, 0));
        let name = text_or_missing(field(j, "name"@, 1));
        let id = output_id(j);
        let content = blocks_or_missing(field(j, "content"@, 4));
        if kind is Some && name is Some && id is Some && content is Some {
            Some(
                OutputV {
                    kind: kind->0,
                    name: name->0,
                    arguments: match field(j, "arguments"@, 2) {
                        Some(a) => a,
                        None => JsonV::Null,
                    },
                    id: id->0,
                    content: content->0,
                },
            )
        } else {
            None
        }
    }
}

/// The arguments of a call: a text is read as a document.
pub open spec fn call_arguments(a: JsonV) -> JsonV {
    if a is Text {
        json_or_null(a->Text_0)
    } else {
        a
    }
}

/// What is said with the blocks of an output added.
pub open spec fn said_with_blocks(said: Seq<char>, blocks: Seq<(Seq<char>, Seq<char>)>) -> Seq<
    char,
>
    decreases blocks.len(),
{
    if blocks.len() == 0 {
        said
    } else {
        let before = said_with_blocks(said, blocks.drop_last());
        let b = blocks.last();
        if (b.0 == "output_text"@ || b.0.len() == 0) && b.1.len() > 0 {
            said_after(before, b.1)
        } else {
            before
        }
    }
}

/// The calls and the text of a list of outputs, where every one of them reads.
pub open spec fn outputs_read(items: Seq<JsonV>) -> Option<(Seq<ToolCallV>, Seq<char>)>
    decreases items.len(),
{
    if items.len() == 0 {
        Some((Seq::empty(), Seq::empty()))
    } else {
        match (outputs_read(items.drop_last()), output_read(items.last())) {
            (Some((calls, said)), Some(o)) => if o.kind == "function_call"@ {
                Some(
                    (
                        calls.push(
                            ToolCallV {
                                id: o.id,
                                name: o.name,
                                arguments: call_arguments(o.arguments),
                            },
                        ),
                        said,
                    ),
                )
            } else {
                Some((calls, said_with_blocks(said, o.content)))
            },
            _ => None,
        }
    }
}

proof fn lemma_outputs_read_prefix(items: Seq<JsonV>, n: int)
    requires
        0 <= n <= items.len(),
        outputs_read(items.take(n)) is None,
    ensures
        outputs_read(items) is None,
    decreases items.len() - n,
{
    if n < items.len() {
        assert(items.take(n + 1).drop_last() =~= items.take(n));
        lemma_outputs_read_prefix(items, n + 1);
    } else {
        assert(items.take(n) =~= items);
    }
}

/// The completion in a reply of the responses wire.
pub open spec fn responses_completion(j: JsonV) -> Option<CompletionV> {
    match list_in(member(j, "output"@)) {
        Some(items) => match outputs_read(items) {
            Some((calls, said)) => completion_of(calls, said),
            None => None,
        },
        None => None,
    }
}

struct Output {
    kind: String,
    name: String,
    arguments: Json,
    id: String,
    content: Vec<(String, String)>,
}

impl Output {
    spec fn read(self) -> OutputV {
        OutputV {
            kind: self.kind@,
            name: self.name@,
            arguments: self.arguments@,
            id: self.id@,
            content: said_view(self.content@),
        }
    }
}

fn read_output_id(j: &Json) -> (r: Option<String>)
    ensures
        opt_view(r) == output_id(j@),
{
    proof {
        lemma_list_view(*j);
    }
    match j {
        Json::Object(pairs) => {
            let a = find_in(pairs, "call_id");
            let b = find_in(pairs, "id");
            if a.is_some() && b.is_some() {
                None
            } else if a.is_some() {
                text_field(a)
            } else {
                text_field(b)
            }
        },
        _ => text_field(field_of(j, "id", 3)),
    }
}

fn read_output(j: &Json) -> (r: Option<Output>)
    ensures
        match r {
            Some(o) => output_read(j@) == Some(o.read()),
            None => output_read(j@) is None,
        },
{
    if !record(j, 5) {
        return None;
    }
    let arguments = match field_of(j, "arguments", 2) {
        Some(a) => a.copy(),
        None => Json::Null,
    };
    match (
        text_field(field_of(j, "type", 0)),
        text_field(field_of(j, "name", 1)),
        read_output_id(j),
        read_blocks(field_of(j, "content", 4)),
    ) {
        (Some(kind), Some(name), Some(id), Some(content)) => Some(
            Output { kind, name, arguments, id, content },
        ),
        _ => None,
    }
}

fn say_blocks(said: &mut String, blocks: &Vec<(String, String)>)
    ensures
        final(said)@ == said_with_blocks(old(said)@, said_view(blocks@)),
{
    let ghost all = said_view(blocks@);
    let mut i: usize = 0;
    assert(all.take(0) =~= Seq::empty());
    while i < blocks.len()
        invariant
            i <= blocks@.len(),
            all == said_view(blocks@),
            said@ == said_with_blocks(old(said)@, all.take(i as int)),
        decreases blocks.len() - i,
    {
        assert(all.take(i + 1).drop_last() =~= all.take(i as int));
        assert(all[i as int] == (blocks@[i as int].0@, blocks@[i as int].1@));
        if (same(blocks[i].0.as_str(), "output_text") || blocks[i].0.as_str().is_empty())
            && !blocks[i].1.as_str().is_empty() {
            say(said, blocks[i].1.as_str());
        }
        i += 1;
    }
    assert(all.take(i as int) =~= all);
}

pub fn parse_responses_completion(j: &Json) -> (r: Option<Completion>)
    ensures
        opt_completion(r) == responses_completion(j@),
{
    let items = match j.get("output") {
        None => {
            return None;
        },
        Some(o) => match o.as_array() {
            None => {
                return None;
            },
            Some(items) => items,
        },
    };
    let ghost all = list_view(items@);
    let mut calls: Vec<ToolCall> = Vec::new();
    let mut said = String::new();
    let mut i: usize = 0;
    assert(calls_view(calls@) =~= Seq::empty());
    while i < items.len()
        invariant
            i <= items@.len(),
            all == list_view(items@),
            list_in(member(j@, "output"@)) == Some(all),
            outputs_read(all.take(i as int)) == Some((calls_view(calls@), said@)),
        decreases items.len() - i,
    {
        assert(all.take(i + 1).drop_last() =~= all.take(i as int));
        assert(all[i as int] == items@[i as int]@);
        match read_output(&items[i]) {
            None => {
                proof {
                    lemma_outputs_read_prefix(all, i + 1);
                }
                return None;
            },
            Some(o) => {
                if same(o.kind.as_str(), "function_call") {
                    let arguments = match &o.arguments {
                        Json::Text(s) => read_or_null(s.as_str()),
                        _ => o.arguments,
                    };
                    let call = ToolCall { id: o.id, name: o.name, arguments };
                    assert(calls_view(calls@.push(call)) =~= calls_view(calls@).push(call@));
                    calls.push(call);
                } else {
                    say_blocks(&mut said, &o.content);
                }
            },
        }
        i += 1;
    }
    assert(all.take(i as int) =~= all);
    completion(calls, said)
}

/// A call in a reply of the chat wire.
pub open spec fn chat_call_read(j: JsonV) -> Option<ToolCallV> {
    if !is_record(j, 2) {
        None
    } else {
        match (text_or_missing(field(j, "id"@, 0)), field(j, "function"@, 1)) {
            (Some(id), Some(f)) => if is_record(f, 2) {
                match (
                    text_or_missing(field(f, "name"@, 0)),
                    text_or_missing(field(f, "arguments"@, 1)),
                ) {
                    (Some(name), Some(args)) => Some(
                        ToolCallV { id, name, arguments: json_or_null(args) },
                    ),
                    _ => None,
                }
            } else {
                None
            },
            _ => None,
        }
    }
}

/// The calls of a list that read; the others are left out.
pub open spec fn chat_calls_read(items: Seq<JsonV>) -> Seq<ToolCallV>
    decreases items.len(),
{
    if items.len() == 0 {
        Seq::empty()
    } else {
        let before = chat_calls_read(items.drop_last());
        match chat_call_read(items.last()) {
            Some(c) => before.push(c),
            None => before,
        }
    }
}

/// The completion in a reply of the chat wire: that of its first choice.
pub open spec fn chat_completion(j: JsonV) -> Option<CompletionV> {
    match list_in(member(j, "choices"@)) {
        Some(choices) => if choices.len() == 0 {
            None
        } else {
            match member(choices[0], "message"@) {
                Some(m) => completion_of(
                    match list_in(member(m, "tool_calls"@)) {
                        Some(items) => chat_calls_read(items),
                        None => Seq::empty(),
                    },
                    text_or_empty(member(m, "content"@)),
                ),
                None => None,
            }
        },
        None => None,
    }
}

fn read_chat_call(j: &Json) -> (r: Option<ToolCall>)
    ensures
        match r {
            Some(c) => chat_call_read(j@) == Some(c@),
            None => chat_call_read(j@) is None,
        },
{
    if !record(j, 2) {
        return None;
    }
    match (text_field(field_of(j, "id", 0)), field_of(j, "function", 1)) {
        (Some(id), Some(f)) => {
            if !record(f, 2) {
                return None;
            }
            match (text_field(field_of(f, "name", 0)), text_field(field_of(f, "arguments", 1))) {
                (Some(name), Some(args)) => Some(
                    ToolCall { id, name, arguments: read_or_null(args.as_str()) },
                ),
                _ => None,
            }
        },
        _ => None,
    }
}

pub fn parse_chat_completion(j: &Json) -> (r: Option<Completion>)
    ensures
        opt_completion(r) == chat_completion(j@),
{
    let choices = match j.get("choices") {
        None => {
            return None;
        },
        Some(c) => match c.as_array() {
            None => {
                return None;
            },
            Some(items) => items,
        },
    };
    assert(list_view(choices@).len() == choices@.len());
    if choices.len() == 0 {
        return None;
    }
    assert(list_view(choices@)[0] == choices@[0]@);
    let m = match choices[0].get("message") {
        None => {
            return None;
        },
        Some(m) => m,
    };
    let said = str_or_empty(m.get("content"));
    let mut calls: Vec<ToolCall> = Vec::new();
    assert(calls_view(calls@) =~= Seq::empty());
    match m.get("tool_calls") {
        None => {},
        Some(t) => match t.as_array() {
            None => {},
            Some(items) => {
                let ghost all = list_view(items@);
                let mut i: usize = 0;
                assert(all.take(0) =~= Seq::empty());
                while i < items.len()
                    invariant
                        i <= items@.len(),
                        all == list_view(items@),
                        calls_view(calls@) == chat_calls_read(all.take(i as int)),
                    decreases items.len() - i,
                {
                    assert(all.take(i + 1).drop_last() =~= all.take(i as int));
                    assert(all[i as int] == items@[i as int]@);
                    match read_chat_call(&items[i]) {
                        Some(c) => {
                            assert(calls_view(calls@.push(c)) =~= calls_view(calls@).push(c@));
                            calls.push(c);
                        },
                        None => {},
                    }
                    i += 1;
                }
                assert(all.take(i as int) =~= all);
            },
        },
    }
    completion(calls, said)
}

/// A call in a block of the messages wire.
pub open spec fn tool_use_read(j: JsonV) -> Option<ToolCallV> {
    if !is_record(j, 3) {
        None
    } else {
        match (text_or_missing(field(j, "id"@, 0)), text_or_missing(field(j, "name"@, 1))) {
            (Some(id), Some(name)) => Some(
                ToolCallV {
                    id,
                    name,
                    arguments: match field(j, "input"@, 2) {
                        Some(a) => a,
                        None => JsonV::Null,
                    },
                },
            ),
            _ => None,
        }
    }
}

/// The calls and the text of the blocks of the messages wire.
pub open spec fn content_read(items: Seq<JsonV>) -> (Seq<ToolCallV>, Seq<char>)
    decreases items.len(),
{
    if items.len() == 0 {
        (Seq::empty(), Seq::empty())
    } else {
        let (calls, said) = content_read(items.drop_last());
        let kind = text_or_empty(member(items.last(), "type"@));
        if kind == "tool_use"@ {
            match tool_use_read(items.last()) {
                Some(c) => (calls.push(c), said),
                None => (calls, said),
            }
        } else if kind == "text"@ || kind.len() == 0 {
            match text_in(member(items.last(), "text"@)) {
                Some(t) => (calls, said_after(said, t)),
                None => (calls, said),
            }
        } else {
            (calls, said)
        }
    }
}

/// The completion in a reply of the messages wire.
pub open spec fn messages_completion(j: JsonV) -> Option<CompletionV> {
    match list_in(member(j, "content"@)) {
        Some(items) => completion_of(content_read(items).0, content_read(items).1),
        None => None,
    }
}

fn read_tool_use(j: &Json) -> (r: Option<ToolCall>)
    ensures
        match r {
            Some(c) => tool_use_read(j@) == Some(c@),
            None => tool_use_read(j@) is None,
        },
{
    if !record(j, 3) {
        return None;
    }
    let arguments = match field_of(j, "input", 2) {
        Some(a) => a.copy(),
        None => Json::Null,
    };
    match (text_field(field_of(j, "id", 0)), text_field(field_of(j, "name", 1))) {
        (Some(id), Some(name)) => Some(ToolCall { id, name, arguments }),
        _ => None,
    }
}

pub fn parse_anthropic_completion(j: &Json) -> (r: Option<Completion>)
    ensures
        opt_completion(r) == messages_completion(j@),
{
    let items = match j.get("content") {
        None => {
            return None;
        },
        Some(c) => match c.as_array() {
            None => {
                return None;
            },
            Some(items) => items,
        },
    };
    let ghost all = list_view(items@);
    let mut calls: Vec<ToolCall> = Vec::new();
    let mut said = String::new();
    let mut i: usize = 0;
    assert(calls_view(calls@) =~= Seq::empty());
    assert(all.take(0) =~= Seq::empty());
    while i < items.len()
        invariant
            i <= items@.len(),
            all == list_view(items@),
            content_read(all.take(i as int)) == (calls_view(calls@), said@),
        decreases items.len() - i,
    {
        assert(all.take(i + 1).drop_last() =~= all.take(i as int));
        assert(all[i as int] == items@[i as int]@);
        let kind = str_or_empty(items[i].get("type"));
        if same(kind.as_str(), "tool_use") {
            match read_tool_use(&items[i]) {
                Some(c) => {
                    assert(calls_view(calls@.push(c)) =~= calls_view(calls@).push(c@));
                    calls.push(c);
                },
                None => {},
            }
        } else if same(kind.as_str(), "text") || kind.as_str().is_empty() {
            match crate::json::opt_str(items[i].get("text")) {
                Some(t) => {
                    say(&mut said, t);
                },
                None => {},
            }
        }
        i += 1;
    }
    assert(all.take(i as int) =~= all);
    completion(calls, said)
}

/// The completion in a reply.
pub open spec fn completion_in(wire: WireApi, j: JsonV) -> Option<CompletionV> {
    match wire {
        WireApi::Responses => responses_completion(j),
        WireApi::ChatCompletions => chat_completion(j),
        WireApi::Messages => messages_completion(j),
    }
}

/// The completion in the body of a reply; none where the body is no JSON or has another shape.
pub fn parse_completion(wire: WireApi, body: &str) -> (r: Option<Completion>)
    ensures
        opt_completion(r) == (match json_parsed(body@) {
            Ok(j) => completion_in(wire, j),
            Err(_) => None,
        }),
{
    match Json::parse(body) {
        Ok(j) => match wire {
            WireApi::Responses => parse_responses_completion(&j),
            WireApi::ChatCompletions => parse_chat_completion(&j),
            WireApi::Messages => parse_anthropic_completion(&j),
        },
        Err(_) => None,
    }
}


// Whole replies

/// Whether a status is a success.
pub open spec fn is_success(code: u16) -> bool {
    200 <= code < 300
}

/// What an error on a reply that does not read says.
pub open spec fn unread_text(what: Seq<char>, wire: WireApi, body: Seq<char>) -> Seq<char> {
    what + wire_name(wire) + "' response: "@ + cut_marked(body, 200, "..."@)
}

/// Whether an error is the one for this status.
pub open spec fn is_status_error(
    e: Error,
    provider_id: Seq<char>,
    code: u16,
    shown: Seq<char>,
    body: Seq<char>,
) -> bool {
    let m = status_text(provider_id, code, shown, body);
    if is_auth_status(code) {
        e matches Error::LlmAuth(t) && t@ == m
    } else {
        e matches Error::Llm(t) && t@ == m
    }
}

/// The error for a provider without a key.
pub fn no_key(provider_id: &str) -> (r: Error)
    ensures
        r matches Error::LlmAuth(m) && m@ == "no API key for provider '"@ + provider_id@ + "'"@,
{
    Error::LlmAuth(cat2(cat2("no API key for provider '", provider_id).as_str(), "'"))
}

fn unread(what: &str, wire: WireApi, body: &str) -> (r: Error)
    ensures
        r matches Error::Llm(m) && m@ == unread_text(what@, wire, body@),
{
    Error::Llm(cat4(what, wire_api_name(wire), "' response: ", truncate(body, 200).as_str()))
}

/// The answer of a whole reply to one question, from its status and its body.
pub fn complete(provider_id: &str, wire: WireApi, code: u16, shown: &str, body: &str) -> (r: Result<
    String,
    Error,
>)
    ensures
        if !is_success(code) {
            r matches Err(e) && is_status_error(e, provider_id@, code, shown@, body@)
        } else {
            match json_parsed(body@) {
                Ok(j) if assistant_said(wire, j) is Some => r matches Ok(t) && Some(t@)
                    == assistant_said(wire, j),
                _ => r matches Err(Error::Llm(m)) && m@ == unread_text(
                    "could not parse assistant text from '"@,
                    wire,
                    body@,
                ),
            }
        },
{
    if !(200 <= code && code < 300) {
        return Err(status_error(provider_id, code, shown, body));
    }
    match parse_assistant_text(wire, body) {
        Some(t) => Ok(t),
        None => Err(unread("could not parse assistant text from '", wire, body)),
    }
}

/// The completion of a whole reply to one question with tools, from its status and its body.
pub fn complete_with_tools(
    provider_id: &str,
    wire: WireApi,
    code: u16,
    shown: &str,
    body: &str,
) -> (r: Result<Completion, Error>)
    ensures
        if !is_success(code) {
            r matches Err(e) && is_status_error(e, provider_id@, code, shown@, body@)
        } else {
            match json_parsed(body@) {
                Ok(j) if completion_in(wire, j) is Some => r matches Ok(c) && Some(c@)
                    == completion_in(wire, j),
                _ => r matches Err(Error::Llm(m)) && m@ == unread_text(
                    "could not parse completion from '"@,
                    wire,
                    body@,
                ),
            }
        },
{
    if !(200 <= code && code < 300) {
        return Err(status_error(provider_id, code, shown, body));
    }
    match parse_completion(wire, body) {
        Some(c) => Ok(c),
        None => Err(unread("could not parse completion from '", wire, body)),
    }
}

} // verus!
