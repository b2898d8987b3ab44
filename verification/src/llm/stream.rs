//! A reply that comes as a stream of events.

use crate::agent::{TurnResponse, TurnResponseV};
use crate::error::Error;
use crate::json::{
    empty_object, is_text, json_normal, json_parsed, json_printed, list_in, list_view, member,
    nat_in, opt_str, pointer, str_or_empty, text_in, text_or_empty, Json, JsonV,
};
use crate::llm::truncate;
use crate::provider::WireApi;
use crate::strs::{after_prefix, cat3, cat4, opt_view, same, strip_prefix, trim, trimmed};
use crate::text::cut_marked;
use crate::tools::{calls_view, ToolCall, ToolCallV};
use vstd::prelude::*;
use vstd::string::StringExecFns;

pub mod laws;

verus! {

// Signals

/// What an event signals beside its text.
#[derive(Debug)]
pub enum SseSignal {
    /// The provider reports an error.
    Error(String),
    /// The stream ended as it should.
    Terminal,
    /// The model stopped for this reason.
    Stop(String),
    Nothing,
}

pub enum SseSignalV {
    Error(Seq<char>),
    Terminal,
    Stop(Seq<char>),
    Nothing,
}

impl View for SseSignal {
    type V = SseSignalV;

    open spec fn view(&self) -> SseSignalV {
        match self {
            SseSignal::Error(m) => SseSignalV::Error(m@),
            SseSignal::Terminal => SseSignalV::Terminal,
            SseSignal::Stop(r) => SseSignalV::Stop(r@),
            SseSignal::Nothing => SseSignalV::Nothing,
        }
    }
}

/// The message of an error event: its own, or the start of the whole event.
pub open spec fn event_error(j: JsonV) -> Seq<char> {
    match text_in(pointer(j, "/error/message"@)) {
        Some(m) => m,
        None => cut_marked(json_printed(json_normal(j)), 200, "..."@),
    }
}

/// What an event signals on each wire.
pub open spec fn signal_of(wire: WireApi, j: JsonV) -> SseSignalV {
    let kind = text_in(member(j, "type"@));
    match wire {
        WireApi::Messages => if kind == Some("error"@) {
            SseSignalV::Error(event_error(j))
        } else if kind == Some("message_stop"@) {
            SseSignalV::Terminal
        } else if kind == Some("message_delta"@) {
            match text_in(pointer(j, "/delta/stop_reason"@)) {
                Some(r) => SseSignalV::Stop(r),
                None => SseSignalV::Nothing,
            }
        } else {
            SseSignalV::Nothing
        },
        WireApi::ChatCompletions => if member(j, "error"@) is Some {
            SseSignalV::Error(event_error(j))
        } else {
            match text_in(pointer(j, "/choices/0/finish_reason"@)) {
                Some(r) => SseSignalV::Stop(r),
                None => SseSignalV::Nothing,
            }
        },
        WireApi::Responses => if kind == Some("response.failed"@) || kind == Some("error"@) {
            SseSignalV::Error(event_error(j))
        } else if kind == Some("response.completed"@) {
            SseSignalV::Terminal
        } else if kind == Some("response.incomplete"@) {
            SseSignalV::Stop("max_tokens"@)
        } else {
            SseSignalV::Nothing
        },
    }
}

fn error_message(v: &Json) -> (r: String)
    ensures
        r@ == event_error(v@),
{
    match opt_str(v.pointer("/error/message")) {
        Some(m) => m.to_owned(),
        None => truncate(v.to_text().as_str(), 200),
    }
}

fn stop_signal(reason: Option<&str>) -> (r: SseSignal)
    ensures
        r@ == (match reason {
            Some(s) => SseSignalV::Stop(s@),
            None => SseSignalV::Nothing,
        }),
{
    match reason {
        Some(s) => SseSignal::Stop(s.to_owned()),
        None => SseSignal::Nothing,
    }
}

pub fn classify_event(wire: WireApi, v: &Json) -> (r: SseSignal)
    ensures
        r@ == signal_of(wire, v@),
{
    match wire {
        WireApi::Messages => {
            if is_text(v.get("type"), "error") {
                SseSignal::Error(error_message(v))
            } else if is_text(v.get("type"), "message_stop") {
                SseSignal::Terminal
            } else if is_text(v.get("type"), "message_delta") {
                stop_signal(opt_str(v.pointer("/delta/stop_reason")))
            } else {
                SseSignal::Nothing
            }
        },
        WireApi::ChatCompletions => {
            if v.get("error").is_some() {
                SseSignal::Error(error_message(v))
            } else {
                stop_signal(opt_str(v.pointer("/choices/0/finish_reason")))
            }
        },
        WireApi::Responses => {
            if is_text(v.get("type"), "response.failed") || is_text(v.get("type"), "error") {
                SseSignal::Error(error_message(v))
            } else if is_text(v.get("type"), "response.completed") {
                SseSignal::Terminal
            } else if is_text(v.get("type"), "response.incomplete") {
                SseSignal::Stop("max_tokens".to_owned())
            } else {
                SseSignal::Nothing
            }
        },
    }
}

/// Whether a reason to stop is that the output ran out.
pub open spec fn length_stop(reason: Seq<char>) -> bool {
    reason == "max_tokens"@ || reason == "length"@
}

pub fn is_length_stop(reason: &str) -> (r: bool)
    ensures
        r == length_stop(reason@),
{
    same(reason, "max_tokens") || same(reason, "length")
}

/// The piece of text in an event on each wire.
pub open spec fn delta_of(wire: WireApi, j: JsonV) -> Option<Seq<char>> {
    let kind = text_in(member(j, "type"@));
    match wire {
        WireApi::Messages => if kind == Some("content_block_delta"@) {
            text_in(pointer(j, "/delta/text"@))
        } else {
            None
        },
        WireApi::ChatCompletions => text_in(pointer(j, "/choices/0/delta/content"@)),
        WireApi::Responses => if kind == Some("response.output_text.delta"@) {
            text_in(member(j, "delta"@))
        } else {
            None
        },
    }
}

fn owned(o: Option<&str>) -> (r: Option<String>)
    ensures
        match o {
            Some(s) => opt_view(r) == Some(s@),
            None => r is None,
        },
{
    match o {
        Some(s) => Some(s.to_owned()),
        None => None,
    }
}

pub fn extract_stream_delta(wire: WireApi, v: &Json) -> (r: Option<String>)
    ensures
        opt_view(r) == delta_of(wire, v@),
{
    match wire {
        WireApi::Messages => {
            if !is_text(v.get("type"), "content_block_delta") {
                return None;
            }
            owned(opt_str(v.pointer("/delta/text")))
        },
        WireApi::ChatCompletions => owned(opt_str(v.pointer("/choices/0/delta/content"))),
        WireApi::Responses => {
            if !is_text(v.get("type"), "response.output_text.delta") {
                return None;
            }
            owned(opt_str(v.get("delta")))
        },
    }
}

// Calls in pieces

/// The arguments of a call as they were gathered: an empty or broken text counts as no arguments.
pub open spec fn args_of(s: Seq<char>) -> JsonV {
    if trimmed(s).len() == 0 {
        JsonV::Object(Seq::empty())
    } else {
        match json_parsed(s) {
            Ok(j) => j,
            Err(_) => JsonV::Object(Seq::empty()),
        }
    }
}

pub fn parse_args(s: &str) -> (r: Json)
    ensures
        r@ == args_of(s@),
{
    if trim(s).as_str().is_empty() {
        return empty_object();
    }
    match Json::parse(s) {
        Ok(j) => j,
        Err(_) => empty_object(),
    }
}

/// The text at the end of a pointer, or no characters.
pub fn str_at(v: &Json, ptr: &str) -> (r: String)
    ensures
        r@ == text_or_empty(pointer(v@, ptr@)),
{
    str_or_empty(v.pointer(ptr))
}

/// A call as far as it has come in.
#[derive(Debug)]
pub struct Part {
    pub index: u64,
    pub id: String,
    pub name: String,
    pub args: String,
}

#[verifier::ext_equal]
pub struct PartV {
    pub index: u64,
    pub id: Seq<char>,
    pub name: Seq<char>,
    pub args: Seq<char>,
}

impl View for Part {
    type V = PartV;

    open spec fn view(&self) -> PartV {
        PartV { index: self.index, id: self.id@, name: self.name@, args: self.args@ }
    }
}

pub open spec fn parts_view(v: Seq<Part>) -> Seq<PartV> {
    v.map_values(|p: Part| p@)
}

/// The part with this index.
pub open spec fn part_at(parts: Seq<PartV>, index: u64) -> Option<PartV>
    decreases parts.len(),
{
    if parts.len() == 0 {
        None
    } else if parts[0].index == index {
        Some(parts[0])
    } else {
        part_at(parts.drop_first(), index)
    }
}

/// The parts with `p` in the place of the one with its index, or before the first with a greater
/// one.
pub open spec fn with_part(parts: Seq<PartV>, p: PartV) -> Seq<PartV>
    decreases parts.len(),
{
    if parts.len() == 0 {
        seq![p]
    } else if parts[0].index == p.index {
        seq![p] + parts.drop_first()
    } else if parts[0].index > p.index {
        seq![p] + parts
    } else {
        seq![parts[0]] + with_part(parts.drop_first(), p)
    }
}

/// The parts are in the order of their indices, each of which occurs once.
pub open spec fn parts_sorted(parts: Seq<PartV>) -> bool {
    forall|i: int, j: int|
        0 <= i < j < parts.len() ==> (#[trigger] parts[i]).index < (#[trigger] parts[j]).index
}

proof fn lemma_with_part_indices(parts: Seq<PartV>, p: PartV, low: u64)
    requires
        parts_sorted(parts),
        forall|i: int| 0 <= i < parts.len() ==> low < (#[trigger] parts[i]).index,
        low < p.index,
    ensures
        forall|i: int|
            0 <= i < with_part(parts, p).len() ==> low < (#[trigger] with_part(parts, p)[i]).index,
    decreases parts.len(),
{
    let now = with_part(parts, p);
    if parts.len() > 0 {
        let rest = parts.drop_first();
        assert(forall|i: int| 0 <= i < rest.len() ==> #[trigger] rest[i] == parts[i + 1]);
        if parts[0].index < p.index {
            lemma_with_part_indices(rest, p, low);
        }
        assert forall|i: int| 0 <= i < now.len() implies low < (#[trigger] now[i]).index by {
            if i > 0 {
                if parts[0].index == p.index {
                    assert(now[i] == parts[i]);
                } else if parts[0].index > p.index {
                    assert(now[i] == parts[i - 1]);
                } else {
                    assert(now[i] == with_part(rest, p)[i - 1]);
                }
            }
        }
    }
}

/// Putting in a part keeps the parts in order, makes the part the one with its index and leaves
/// the others as they are.
pub proof fn law_with_part(parts: Seq<PartV>, p: PartV)
    requires
        parts_sorted(parts),
    ensures
        parts_sorted(with_part(parts, p)),
        part_at(with_part(parts, p), p.index) == Some(p),
        forall|i: u64| i != p.index ==> part_at(with_part(parts, p), i) == #[trigger] part_at(
            parts,
            i,
        ),
    decreases parts.len(),
{
    let now = with_part(parts, p);
    if parts.len() == 0 {
        assert(now.drop_first() =~= parts);
    } else {
        let rest = parts.drop_first();
        assert(forall|i: int| 0 <= i < rest.len() ==> #[trigger] rest[i] == parts[i + 1]);
        if parts[0].index == p.index {
            assert(now.drop_first() =~= rest);
        } else if parts[0].index > p.index {
            assert(now.drop_first() =~= parts);
        } else {
            law_with_part(rest, p);
            lemma_with_part_indices(rest, p, parts[0].index);
            let tail = with_part(rest, p);
            assert(now.drop_first() =~= tail);
            assert forall|i: int, j: int| 0 <= i < j < now.len() implies (#[trigger] now[i]).index
                < (#[trigger] now[j]).index by {
                assert(now[j] == tail[j - 1]);
                if i > 0 {
                    assert(now[i] == tail[i - 1]);
                }
            }
        }
    }
    assert forall|i: u64| i != p.index implies part_at(now, i) == #[trigger] part_at(
        parts,
        i,
    ) by {
        if parts.len() > 0 {
            let rest = parts.drop_first();
            if parts[0].index == p.index {
                assert(now.drop_first() =~= rest);
            } else if parts[0].index > p.index {
                assert(now.drop_first() =~= parts);
            } else {
                assert(now.drop_first() =~= with_part(rest, p));
                assert(part_at(with_part(rest, p), i) == part_at(rest, i));
            }
        } else {
            assert(now.drop_first() =~= parts);
        }
    }
}

/// Gathers the calls of a stream.
#[derive(Debug)]
pub struct ToolCallAcc {
    pub parts: Vec<Part>,
    pub done: Vec<ToolCall>,
}

#[verifier::ext_equal]
pub struct AccV {
    pub parts: Seq<PartV>,
    pub done: Seq<ToolCallV>,
}

impl View for ToolCallAcc {
    type V = AccV;

    open spec fn view(&self) -> AccV {
        AccV { parts: parts_view(self.parts@), done: calls_view(self.done@) }
    }
}

/// The index of an event, or 0.
pub open spec fn event_index(j: JsonV) -> u64 {
    match nat_in(member(j, "index"@)) {
        Some(i) => i,
        None => 0,
    }
}

pub open spec fn empty_part(index: u64) -> PartV {
    PartV { index, id: Seq::empty(), name: Seq::empty(), args: Seq::empty() }
}

/// A part with what a piece of the chat wire brings.
pub open spec fn part_with(p: PartV, j: JsonV) -> PartV {
    PartV {
        index: p.index,
        id: match text_in(member(j, "id"@)) {
            Some(s) => s,
            None => p.id,
        },
        name: match text_in(pointer(j, "/function/name"@)) {
            Some(s) => s,
            None => p.name,
        },
        args: match text_in(pointer(j, "/function/arguments"@)) {
            Some(s) => p.args + s,
            None => p.args,
        },
    }
}

/// The parts with the pieces of an event of the chat wire.
pub open spec fn parts_with(parts: Seq<PartV>, pieces: Seq<JsonV>) -> Seq<PartV>
    decreases pieces.len(),
{
    if pieces.len() == 0 {
        parts
    } else {
        let before = parts_with(parts, pieces.drop_last());
        let j = pieces.last();
        let i = event_index(j);
        let p = match part_at(before, i) {
            Some(p) => p,
            None => empty_part(i),
        };
        with_part(before, part_with(p, j))
    }
}

/// What an event adds to the calls.
pub open spec fn acc_with(a: AccV, wire: WireApi, j: JsonV) -> AccV {
    let kind = text_in(member(j, "type"@));
    match wire {
        WireApi::Messages => if kind == Some("content_block_start"@) && text_in(
            pointer(j, "/content_block/type"@),
        ) == Some("tool_use"@) {
            AccV {
                parts: with_part(
                    a.parts,
                    PartV {
                        index: event_index(j),
                        id: text_or_empty(pointer(j, "/content_block/id"@)),
                        name: text_or_empty(pointer(j, "/content_block/name"@)),
                        args: Seq::empty(),
                    },
                ),
                ..a
            }
        } else if kind == Some("content_block_delta"@) && text_in(pointer(j, "/delta/type"@))
            == Some("input_json_delta"@) {
            match part_at(a.parts, event_index(j)) {
                Some(p) => AccV {
                    parts: with_part(
                        a.parts,
                        PartV {
                            args: p.args + text_or_empty(pointer(j, "/delta/partial_json"@)),
                            ..p
                        },
                    ),
                    ..a
                },
                None => a,
            }
        } else {
            a
        },
        WireApi::ChatCompletions => match list_in(pointer(j, "/choices/0/delta/tool_calls"@)) {
            Some(pieces) => AccV { parts: parts_with(a.parts, pieces), ..a },
            None => a,
        },
        WireApi::Responses => if kind == Some("response.output_item.done"@) && text_in(
            pointer(j, "/item/type"@),
        ) == Some("function_call"@) {
            AccV {
                done: a.done.push(
                    ToolCallV {
                        id: text_or_empty(pointer(j, "/item/call_id"@)),
                        name: text_or_empty(pointer(j, "/item/name"@)),
                        arguments: args_of(text_or_empty(pointer(j, "/item/arguments"@))),
                    },
                ),
                ..a
            }
        } else {
            a
        },
    }
}

/// The calls that were gathered: the whole ones, then those in pieces in the order of their
/// indices.
pub open spec fn acc_calls(a: AccV) -> Seq<ToolCallV> {
    a.done + a.parts.map_values(
        |p: PartV| ToolCallV { id: p.id, name: p.name, arguments: args_of(p.args) },
    )
}

/// Where the part with an index stands, and whether there is one.
fn find_part(parts: &Vec<Part>, index: u64) -> (r: Option<usize>)
    ensures
        match r {
            Some(k) => k < parts@.len() && parts@[k as int].index == index && part_at(
                parts_view(parts@),
                index,
            ) == Some(parts@[k as int]@),
            None => part_at(parts_view(parts@), index) is None,
        },
{
    let ghost all = parts_view(parts@);
    let mut i: usize = 0;
    assert(all.skip(0) =~= all);
    while i < parts.len()
        invariant
            i <= parts@.len(),
            all == parts_view(parts@),
            part_at(all, index) == part_at(all.skip(i as int), index),
        decreases parts.len() - i,
    {
        assert(all.skip(i as int).drop_first() =~= all.skip(i + 1));
        assert(all[i as int] == parts@[i as int]@);
        if parts[i].index == index {
            return Some(i);
        }
        i += 1;
    }
    None
}

fn put_part(parts: &mut Vec<Part>, p: Part)
    ensures
        parts_view(final(parts)@) == with_part(parts_view(old(parts)@), p@),
{
    let ghost all = parts_view(parts@);
    let ghost given = parts@;
    let mut i: usize = 0;
    assert(all.skip(0) =~= all);
    assert(all.take(0) + with_part(all, p@) =~= with_part(all, p@));
    while i < parts.len() && parts[i].index < p.index
        invariant
            i <= parts@.len(),
            parts@ == given,
            all == parts_view(given),
            all.take(i as int) + with_part(all.skip(i as int), p@) == with_part(all, p@),
        decreases parts.len() - i,
    {
        let ghost rest = all.skip(i as int);
        assert(rest.drop_first() =~= all.skip(i + 1));
        assert(all[i as int] == parts@[i as int]@);
        assert(all.take(i + 1) + with_part(all.skip(i + 1), p@) =~= all.take(i as int) + with_part(
            rest,
            p@,
        ));
        i += 1;
    }
    let ghost rest = all.skip(i as int);
    assert(all.len() == parts@.len());
    if i < parts.len() {
        assert(all[i as int] == parts@[i as int]@);
    }
    if i < parts.len() && parts[i].index == p.index {
        parts.set(i, p);
        assert(parts_view(parts@) =~= all.take(i as int) + (seq![p@] + rest.drop_first()));
    } else {
        parts.insert(i, p);
        assert(parts_view(parts@) =~= all.take(i as int) + (seq![p@] + rest));
        proof {
            if i == all.len() {
                assert(seq![p@] + rest =~= seq![p@]);
            }
        }
    }
}

fn index_of(v: &Json) -> (r: u64)
    ensures
        r == event_index(v@),
{
    match v.get("index") {
        Some(i) => match i.as_u64() {
            Some(n) => n,
            None => 0,
        },
        None => 0,
    }
}

impl ToolCallAcc {
    pub fn new() -> (r: ToolCallAcc)
        ensures
            r@ == (AccV { parts: Seq::empty(), done: Seq::empty() }),
    {
        let r = ToolCallAcc { parts: Vec::new(), done: Vec::new() };
        assert(parts_view(r.parts@) =~= Seq::empty());
        assert(calls_view(r.done@) =~= Seq::empty());
        r
    }

    fn feed_pieces(&mut self, pieces: &Vec<Json>)
        ensures
            final(self)@ == (AccV {
                parts: parts_with(old(self)@.parts, list_view(pieces@)),
                ..old(self)@
            }),
    {
        let ghost all = list_view(pieces@);
        let mut i: usize = 0;
        assert(all.take(0) =~= Seq::empty());
        while i < pieces.len()
            invariant
                i <= pieces@.len(),
                all == list_view(pieces@),
                self@ == (AccV {
                    parts: parts_with(old(self)@.parts, all.take(i as int)),
                    ..old(self)@
                }),
            decreases pieces.len() - i,
        {
            assert(all.take(i + 1).drop_last() =~= all.take(i as int));
            assert(all[i as int] == pieces@[i as int]@);
            let piece = &pieces[i];
            let index: u64 = index_of(piece);
            let mut p = match find_part(&self.parts, index) {
                Some(k) => Part {
                    index,
                    id: self.parts[k].id.clone(),
                    name: self.parts[k].name.clone(),
                    args: self.parts[k].args.clone(),
                },
                None => Part { index, id: String::new(), name: String::new(), args: String::new() },
            };
            match opt_str(piece.get("id")) {
                Some(s) => {
                    p.id = s.to_owned();
                },
                None => {},
            }
            match opt_str(piece.pointer("/function/name")) {
                Some(s) => {
                    p.name = s.to_owned();
                },
                None => {},
            }
            match opt_str(piece.pointer("/function/arguments")) {
                Some(s) => {
                    p.args.append(s);
                },
                None => {},
            }
            put_part(&mut self.parts, p);
            i += 1;
        }
        assert(all.take(i as int) =~= all);
    }

    /// Takes in an event.
    pub fn feed(&mut self, wire: WireApi, v: &Json)
        ensures
            final(self)@ == acc_with(old(self)@, wire, v@),
    {
        match wire {
            WireApi::Messages => {
                if is_text(v.get("type"), "content_block_start") && is_text(
                    v.pointer("/content_block/type"),
                    "tool_use",
                ) {
                    let p = Part {
                        index: index_of(v),
                        id: str_at(v, "/content_block/id"),
                        name: str_at(v, "/content_block/name"),
                        args: String::new(),
                    };
                    put_part(&mut self.parts, p);
                } else if is_text(v.get("type"), "content_block_delta") && is_text(
                    v.pointer("/delta/type"),
                    "input_json_delta",
                ) {
                    let index: u64 = index_of(v);
                    match find_part(&self.parts, index) {
                        Some(k) => {
                            let mut args = self.parts[k].args.clone();
                            args.append(str_at(v, "/delta/partial_json").as_str());
                            let p = Part {
                                index,
                                id: self.parts[k].id.clone(),
                                name: self.parts[k].name.clone(),
                                args,
                            };
                            put_part(&mut self.parts, p);
                        },
                        None => {},
                    }
                }
            },
            WireApi::ChatCompletions => {
                match v.pointer("/choices/0/delta/tool_calls") {
                    Some(c) => match c.as_array() {
                        Some(pieces) => {
                            self.feed_pieces(pieces);
                        },
                        None => {},
                    },
                    None => {},
                }
            },
            WireApi::Responses => {
                if is_text(v.get("type"), "response.output_item.done") && is_text(
                    v.pointer("/item/type"),
                    "function_call",
                ) {
                    let call = ToolCall {
                        id: str_at(v, "/item/call_id"),
                        name: str_at(v, "/item/name"),
                        arguments: parse_args(str_at(v, "/item/arguments").as_str()),
                    };
                    assert(calls_view(self.done@.push(call)) =~= calls_view(self.done@).push(
                        call@,
                    ));
                    self.done.push(call);
                }
            },
        }
    }

    /// The calls that were gathered.
    pub fn finish(self) -> (r: Vec<ToolCall>)
        ensures
            calls_view(r@) == acc_calls(self@),
    {
        let ghost whole = calls_view(self.done@);
        let ghost pieces = parts_view(self.parts@).map_values(
            |p: PartV| ToolCallV { id: p.id, name: p.name, arguments: args_of(p.args) },
        );
        let mut out = self.done;
        let parts = self.parts;
        let mut i: usize = 0;
        assert(whole + pieces.take(0) =~= whole);
        while i < parts.len()
            invariant
                i <= parts@.len(),
                pieces == parts_view(parts@).map_values(
                    |p: PartV| ToolCallV { id: p.id, name: p.name, arguments: args_of(p.args) },
                ),
                calls_view(out@) == whole + pieces.take(i as int),
            decreases parts.len() - i,
        {
            let call = ToolCall {
                id: parts[i].id.clone(),
                name: parts[i].name.clone(),
                arguments: parse_args(parts[i].args.as_str()),
            };
            proof {
                assert(parts_view(parts@)[i as int] == parts@[i as int]@);
                assert(calls_view(out@.push(call)) =~= calls_view(out@).push(call@));
                assert((whole + pieces.take(i as int)).push(call@) =~= whole + pieces.take(i + 1));
            }
            out.push(call);
            i += 1;
        }
        assert(pieces.take(i as int) =~= pieces);
        out
    }
}

// The stream

/// What has come in of a reply: its text, its calls, and how it ended.
#[derive(Debug)]
pub struct Stream {
    pub text: String,
    pub acc: ToolCallAcc,
    pub terminated: bool,
    pub truncated: bool,
}

#[verifier::ext_equal]
pub struct StreamV {
    pub text: Seq<char>,
    pub acc: AccV,
    pub terminated: bool,
    pub truncated: bool,
}

impl View for Stream {
    type V = StreamV;

    open spec fn view(&self) -> StreamV {
        StreamV {
            text: self.text@,
            acc: self.acc@,
            terminated: self.terminated,
            truncated: self.truncated,
        }
    }
}

/// The piece of text that an event brings, where it brings one that is not empty.
pub open spec fn delta_said(wire: WireApi, j: JsonV) -> Option<Seq<char>> {
    match delta_of(wire, j) {
        Some(d) => if d.len() > 0 {
            Some(d)
        } else {
            None
        },
        None => None,
    }
}

/// The stream with an event that is no error.
pub open spec fn stream_with(s: StreamV, wire: WireApi, j: JsonV) -> StreamV {
    let signal = signal_of(wire, j);
    StreamV {
        text: match delta_said(wire, j) {
            Some(d) => s.text + d,
            None => s.text,
        },
        acc: acc_with(s.acc, wire, j),
        terminated: s.terminated || signal is Terminal || signal is Stop,
        truncated: s.truncated || (signal matches SseSignalV::Stop(r) && length_stop(r)),
    }
}

/// What a line of the stream carries: nothing, the end, or an event.
pub enum LineV {
    Skip,
    End,
    Event(JsonV),
}

pub open spec fn line_of(line: Seq<char>) -> LineV {
    match after_prefix(line, "data:"@) {
        None => LineV::Skip,
        Some(rest) => if trimmed(rest) == "[DONE]"@ {
            LineV::End
        } else {
            match json_parsed(trimmed(rest)) {
                Ok(j) => LineV::Event(j),
                Err(_) => LineV::Skip,
            }
        },
    }
}

/// What a line does to the reader of a stream.
#[derive(Debug)]
pub enum LineStep {
    /// Go on.
    More,
    /// A piece of text came; go on.
    Delta(String),
    /// The stream ended.
    End,
}

pub open spec fn stream_error_text(provider_id: Seq<char>, m: Seq<char>) -> Seq<char> {
    "provider '"@ + provider_id + "' stream error: "@ + m
}

pub open spec fn no_content_text(provider_id: Seq<char>) -> Seq<char> {
    "provider '"@ + provider_id + "' stream ended without content or a terminal event"@
}

impl Stream {
    pub fn new() -> (r: Stream)
        ensures
            r@ == (StreamV {
                text: Seq::empty(),
                acc: AccV { parts: Seq::empty(), done: Seq::empty() },
                terminated: false,
                truncated: false,
            }),
    {
        Stream {
            text: String::new(),
            acc: ToolCallAcc::new(),
            terminated: false,
            truncated: false,
        }
    }

    /// Takes in an event, and hands out its piece of text. An error event leaves the stream as it
    /// is and gives its message.
    pub fn feed_event(&mut self, wire: WireApi, v: &Json) -> (r: Result<Option<String>, String>)
        ensures
            match r {
                Ok(d) => !(signal_of(wire, v@) is Error) && final(self)@ == stream_with(
                    old(self)@,
                    wire,
                    v@,
                ) && opt_view(d) == delta_said(wire, v@),
                Err(m) => signal_of(wire, v@) == SseSignalV::Error(m@) && final(self)@ == old(
                    self,
                )@,
            },
    {
        match classify_event(wire, v) {
            SseSignal::Error(m) => {
                return Err(m);
            },
            SseSignal::Terminal => {
                self.terminated = true;
            },
            SseSignal::Stop(reason) => {
                self.terminated = true;
                if is_length_stop(reason.as_str()) {
                    self.truncated = true;
                }
            },
            SseSignal::Nothing => {},
        }
        let delta = match extract_stream_delta(wire, v) {
            Some(d) => if d.as_str().is_empty() {
                None
            } else {
                self.text.append(d.as_str());
                Some(d)
            },
            None => None,
        };
        self.acc.feed(wire, v);
        Ok(delta)
    }

    /// Takes in a line of the stream.
    pub fn feed_line(&mut self, wire: WireApi, provider_id: &str, line: &str) -> (r: Result<
        LineStep,
        Error,
    >)
        ensures
            match line_of(line@) {
                LineV::Skip => r matches Ok(LineStep::More) && final(self)@ == old(self)@,
                LineV::End => r matches Ok(LineStep::End) && final(self)@ == (StreamV {
                    terminated: true,
                    ..old(self)@
                }),
                LineV::Event(j) => match signal_of(wire, j) {
                    SseSignalV::Error(m) => (r matches Err(Error::Llm(t)) && t@
                        == stream_error_text(provider_id@, m)) && final(self)@ == old(self)@,
                    _ => final(self)@ == stream_with(old(self)@, wire, j) && match delta_said(
                        wire,
                        j,
                    ) {
                        Some(d) => r matches Ok(LineStep::Delta(t)) && t@ == d,
                        None => r matches Ok(LineStep::More),
                    },
                },
            },
    {
        let payload = match strip_prefix(line, "data:") {
            None => {
                return Ok(LineStep::More);
            },
            Some(rest) => trim(rest.as_str()),
        };
        if same(payload.as_str(), "[DONE]") {
            self.terminated = true;
            return Ok(LineStep::End);
        }
        match Json::parse(payload.as_str()) {
            Err(_) => Ok(LineStep::More),
            Ok(v) => match self.feed_event(wire, &v) {
                Err(m) => Err(
                    Error::Llm(cat4("provider '", provider_id, "' stream error: ", m.as_str())),
                ),
                Ok(Some(d)) => Ok(LineStep::Delta(d)),
                Ok(None) => Ok(LineStep::More),
            },
        }
    }

    /// The reply of a turn. A stream that brought nothing and did not end as it should is an
    /// error.
    pub fn finish(self, provider_id: &str) -> (r: Result<TurnResponse, Error>)
        ensures
            ({
                let calls = acc_calls(self@.acc);
                if !self@.terminated && self@.text.len() == 0 && calls.len() == 0 {
                    r matches Err(Error::Llm(t)) && t@ == no_content_text(provider_id@)
                } else {
                    r matches Ok(resp) && resp@ == (TurnResponseV {
                        text: self@.text,
                        tool_calls: calls,
                        truncated: self@.truncated,
                    })
                }
            }),
    {
        let terminated = self.terminated;
        let truncated = self.truncated;
        let text = self.text;
        let tool_calls = self.acc.finish();
        assert(calls_view(tool_calls@).len() == tool_calls@.len());
        if !terminated && text.as_str().is_empty() && tool_calls.len() == 0 {
            return Err(
                Error::Llm(
                    cat3(
                        "provider '",
                        provider_id,
                        "' stream ended without content or a terminal event",
                    ),
                ),
            );
        }
        Ok(TurnResponse { text, tool_calls, truncated })
    }

    /// The text of a reply to one question. A stream that brought no text and did not end as it
    /// should is an error.
    pub fn finish_text(self, provider_id: &str) -> (r: Result<String, Error>)
        ensures
            if !self@.terminated && self@.text.len() == 0 {
                r matches Err(Error::Llm(t)) && t@ == no_content_text(provider_id@)
            } else {
                r matches Ok(t) && t@ == self@.text
            },
    {
        if !self.terminated && self.text.as_str().is_empty() {
            return Err(
                Error::Llm(
                    cat3(
                        "provider '",
                        provider_id,
                        "' stream ended without content or a terminal event",
                    ),
                ),
            );
        }
        Ok(self.text)
    }
}

} // verus!
