//! What a stream gathers: the calls that its events bring, whole or in pieces, its text, and how it
//! ends.

use crate::json::laws::{
    below, law_name_leads_further, law_name_leads_to_its_member, law_pointer_goes_step_by_step,
    law_two_names, law_zero_leads_to_the_first,
};
use crate::json::{json_parsed, member, nat_in, pointer, text_or_empty, JsonV};
use crate::llm::replies::{output_read, outputs_read, responses_completion};
use crate::llm::stream::{
    acc_calls, acc_with, law_with_part, part_at, part_with, parts_sorted, parts_with, signal_of,
    stream_with, with_part, AccV, PartV, SseSignalV, StreamV,
};
use crate::provider::WireApi;
use crate::strs::trimmed;
use crate::tools::{CompletionV, ToolCallV};
use vstd::prelude::*;

verus! {

// Paths

proof fn lemma_item_paths(j: JsonV)
    ensures
        pointer(j, "/item/type"@) == below(member(j, "item"@), "type"@),
        pointer(j, "/item/call_id"@) == below(member(j, "item"@), "call_id"@),
        pointer(j, "/item/name"@) == below(member(j, "item"@), "name"@),
        pointer(j, "/item/arguments"@) == below(member(j, "item"@), "arguments"@),
{
    reveal_strlit("item");
    reveal_strlit("type");
    reveal_strlit("call_id");
    reveal_strlit("name");
    reveal_strlit("arguments");
    reveal_strlit("/item/type");
    reveal_strlit("/item/call_id");
    reveal_strlit("/item/name");
    reveal_strlit("/item/arguments");
    assert("/item/type"@ =~= seq!['/'] + "item"@ + seq!['/'] + "type"@);
    assert("/item/call_id"@ =~= seq!['/'] + "item"@ + seq!['/'] + "call_id"@);
    assert("/item/name"@ =~= seq!['/'] + "item"@ + seq!['/'] + "name"@);
    assert("/item/arguments"@ =~= seq!['/'] + "item"@ + seq!['/'] + "arguments"@);
    law_two_names(j, "/item/type"@, "item"@, "type"@);
    law_two_names(j, "/item/call_id"@, "item"@, "call_id"@);
    law_two_names(j, "/item/name"@, "item"@, "name"@);
    law_two_names(j, "/item/arguments"@, "item"@, "arguments"@);
}

proof fn lemma_block_paths(j: JsonV)
    ensures
        pointer(j, "/content_block/type"@) == below(member(j, "content_block"@), "type"@),
        pointer(j, "/content_block/id"@) == below(member(j, "content_block"@), "id"@),
        pointer(j, "/content_block/name"@) == below(member(j, "content_block"@), "name"@),
{
    reveal_strlit("content_block");
    reveal_strlit("type");
    reveal_strlit("id");
    reveal_strlit("name");
    reveal_strlit("/content_block/type");
    reveal_strlit("/content_block/id");
    reveal_strlit("/content_block/name");
    assert("/content_block/type"@ =~= seq!['/'] + "content_block"@ + seq!['/'] + "type"@);
    assert("/content_block/id"@ =~= seq!['/'] + "content_block"@ + seq!['/'] + "id"@);
    assert("/content_block/name"@ =~= seq!['/'] + "content_block"@ + seq!['/'] + "name"@);
    law_two_names(j, "/content_block/type"@, "content_block"@, "type"@);
    law_two_names(j, "/content_block/id"@, "content_block"@, "id"@);
    law_two_names(j, "/content_block/name"@, "content_block"@, "name"@);
}

proof fn lemma_delta_paths(j: JsonV)
    ensures
        pointer(j, "/delta/type"@) == below(member(j, "delta"@), "type"@),
        pointer(j, "/delta/partial_json"@) == below(member(j, "delta"@), "partial_json"@),
        pointer(j, "/delta/text"@) == below(member(j, "delta"@), "text"@),
        pointer(j, "/delta/stop_reason"@) == below(member(j, "delta"@), "stop_reason"@),
{
    reveal_strlit("delta");
    reveal_strlit("type");
    reveal_strlit("partial_json");
    reveal_strlit("text");
    reveal_strlit("stop_reason");
    reveal_strlit("/delta/type");
    reveal_strlit("/delta/partial_json");
    reveal_strlit("/delta/text");
    reveal_strlit("/delta/stop_reason");
    assert("/delta/type"@ =~= seq!['/'] + "delta"@ + seq!['/'] + "type"@);
    assert("/delta/partial_json"@ =~= seq!['/'] + "delta"@ + seq!['/'] + "partial_json"@);
    assert("/delta/text"@ =~= seq!['/'] + "delta"@ + seq!['/'] + "text"@);
    assert("/delta/stop_reason"@ =~= seq!['/'] + "delta"@ + seq!['/'] + "stop_reason"@);
    law_two_names(j, "/delta/type"@, "delta"@, "type"@);
    law_two_names(j, "/delta/partial_json"@, "delta"@, "partial_json"@);
    law_two_names(j, "/delta/text"@, "delta"@, "text"@);
    law_two_names(j, "/delta/stop_reason"@, "delta"@, "stop_reason"@);
}

proof fn lemma_function_paths(j: JsonV)
    ensures
        pointer(j, "/function/name"@) == below(member(j, "function"@), "name"@),
        pointer(j, "/function/arguments"@) == below(member(j, "function"@), "arguments"@),
{
    reveal_strlit("function");
    reveal_strlit("name");
    reveal_strlit("arguments");
    reveal_strlit("/function/name");
    reveal_strlit("/function/arguments");
    assert("/function/name"@ =~= seq!['/'] + "function"@ + seq!['/'] + "name"@);
    assert("/function/arguments"@ =~= seq!['/'] + "function"@ + seq!['/'] + "arguments"@);
    law_two_names(j, "/function/name"@, "function"@, "name"@);
    law_two_names(j, "/function/arguments"@, "function"@, "arguments"@);
}

proof fn lemma_choice_paths(j: JsonV, choices: Seq<JsonV>)
    requires
        member(j, "choices"@) == Some(JsonV::List(choices)),
        choices.len() > 0,
    ensures
        pointer(j, "/choices/0/delta/content"@) == below(
            member(choices[0], "delta"@),
            "content"@,
        ),
        pointer(j, "/choices/0/delta/tool_calls"@) == below(
            member(choices[0], "delta"@),
            "tool_calls"@,
        ),
        pointer(j, "/choices/0/finish_reason"@) == member(choices[0], "finish_reason"@),
{
    reveal_strlit("choices");
    reveal_strlit("0");
    reveal_strlit("delta");
    reveal_strlit("content");
    reveal_strlit("tool_calls");
    reveal_strlit("finish_reason");
    reveal_strlit("/choices/0/delta/content");
    reveal_strlit("/choices/0/delta/tool_calls");
    reveal_strlit("/choices/0/finish_reason");
    let none = Seq::<char>::empty();
    let all = seq!['/'] + "choices"@;
    let first = all + seq!['/'] + "0"@;
    let delta = first + seq!['/'] + "delta"@;
    assert(none + seq!['/'] + "choices"@ =~= all);
    law_pointer_goes_step_by_step(j, none, "choices"@);
    law_name_leads_to_its_member(j, "choices"@);
    law_pointer_goes_step_by_step(j, all, "0"@);
    law_zero_leads_to_the_first(choices);
    assert(pointer(j, first) == Some(choices[0]));
    law_name_leads_further(j, first, "delta"@);
    law_name_leads_further(j, delta, "content"@);
    law_name_leads_further(j, delta, "tool_calls"@);
    law_name_leads_further(j, first, "finish_reason"@);
    assert("/choices/0/delta/content"@ =~= delta + seq!['/'] + "content"@);
    assert("/choices/0/delta/tool_calls"@ =~= delta + seq!['/'] + "tool_calls"@);
    assert("/choices/0/finish_reason"@ =~= first + seq!['/'] + "finish_reason"@);
}

// Whole calls

/// An event of the responses wire that says that an item is done, and whose item is a call, adds
/// just that call behind the others: with the id under `call_id`, the name, and for arguments the
/// document that the text under `arguments` of the item is, or no members where it is none.
pub proof fn law_done_call_is_gathered(a: AccV, j: JsonV, item: JsonV)
    requires
        member(j, "type"@) == Some(JsonV::Text("response.output_item.done"@)),
        member(j, "item"@) == Some(item),
        member(item, "type"@) == Some(JsonV::Text("function_call"@)),
    ensures
        ({
            let now = acc_with(a, WireApi::Responses, j);
            let call = now.done.last();
            &&& now.parts == a.parts
            &&& now.done.len() == a.done.len() + 1
            &&& now.done.drop_last() == a.done
            &&& member(item, "call_id"@) matches Some(JsonV::Text(s)) ==> call.id == s
            &&& !(member(item, "call_id"@) matches Some(JsonV::Text(_))) ==> call.id.len() == 0
            &&& member(item, "name"@) matches Some(JsonV::Text(s)) ==> call.name == s
            &&& !(member(item, "name"@) matches Some(JsonV::Text(_))) ==> call.name.len() == 0
            &&& member(item, "arguments"@) matches Some(JsonV::Text(s)) ==> (trimmed(s).len() > 0
                ==> match json_parsed(s) {
                Ok(d) => call.arguments == d,
                Err(_) => call.arguments == JsonV::Object(Seq::empty()),
            })
            &&& member(item, "arguments"@) is None ==> call.arguments == JsonV::Object(Seq::empty())
        }),
{
    lemma_item_paths(j);
    let now = acc_with(a, WireApi::Responses, j);
    assert(now.done.drop_last() =~= a.done);
    assert(trimmed(Seq::<char>::empty()).len() == 0);
}

/// Every other event of the responses wire leaves the calls as they are.
pub proof fn law_other_events_bring_no_call(a: AccV, j: JsonV)
    requires
        member(j, "type"@) != Some(JsonV::Text("response.output_item.done"@)) || below(
            member(j, "item"@),
            "type"@,
        ) != Some(JsonV::Text("function_call"@)),
    ensures
        acc_with(a, WireApi::Responses, j) == a,
{
    lemma_item_paths(j);
}

/// A call comes out the same whether its item is streamed or stands in a whole reply: with the same
/// id, name and arguments, where its arguments are a text that is a document.
pub proof fn law_streamed_call_is_the_whole_call(a: AccV, j: JsonV, reply: JsonV, item: JsonV)
    requires
        member(j, "type"@) == Some(JsonV::Text("response.output_item.done"@)),
        member(j, "item"@) == Some(item),
        member(item, "type"@) == Some(JsonV::Text("function_call"@)),
        member(item, "call_id"@) matches Some(JsonV::Text(_)),
        member(item, "arguments"@) matches Some(JsonV::Text(s)) && trimmed(s).len() > 0
            && json_parsed(s) is Ok,
        member(reply, "output"@) == Some(JsonV::List(seq![item])),
        responses_completion(reply) is Some,
    ensures
        responses_completion(reply) == Some(
            CompletionV::ToolCalls(seq![acc_with(a, WireApi::Responses, j).done.last()]),
        ),
{
    lemma_item_paths(j);
    let items = seq![item];
    assert(items.drop_last() =~= Seq::empty());
    assert(outputs_read(items.drop_last()) == Some(
        (Seq::<ToolCallV>::empty(), Seq::<char>::empty()),
    ));
    assert(items.last() == item);
    let call = acc_with(a, WireApi::Responses, j).done.last();
    let o = output_read(item)->0;
    assert(o.kind == "function_call"@);
    assert(o.id == call.id);
    assert(o.name == call.name);
    let read = outputs_read(items)->0;
    assert(read.0 =~= seq![call]);
}

// Calls in pieces

/// The index that an event or a piece names.
pub open spec fn has_index(j: JsonV, i: u64) -> bool {
    match nat_in(member(j, "index"@)) {
        Some(n) => n == i,
        None => i == 0,
    }
}

/// An event of the messages wire that starts a block for a call opens a part at its index, with the
/// id and the name of the block and no arguments yet. The other parts stay, and so do whole calls.
pub proof fn law_block_opens_a_part(a: AccV, j: JsonV, block: JsonV, i: u64)
    requires
        parts_sorted(a.parts),
        member(j, "type"@) == Some(JsonV::Text("content_block_start"@)),
        member(j, "content_block"@) == Some(block),
        member(block, "type"@) == Some(JsonV::Text("tool_use"@)),
        has_index(j, i),
    ensures
        ({
            let now = acc_with(a, WireApi::Messages, j);
            &&& now.done == a.done
            &&& parts_sorted(now.parts)
            &&& part_at(now.parts, i) matches Some(p) && p.args.len() == 0 && p.id == text_or_empty(
                member(block, "id"@),
            ) && p.name == text_or_empty(member(block, "name"@))
            &&& forall|k: u64|
                k != i ==> #[trigger] part_at(now.parts, k) == part_at(a.parts, k)
        }),
{
    lemma_block_paths(j);
    let p = PartV {
        index: i,
        id: text_or_empty(member(block, "id"@)),
        name: text_or_empty(member(block, "name"@)),
        args: Seq::empty(),
    };
    law_with_part(a.parts, p);
    assert(acc_with(a, WireApi::Messages, j).parts == with_part(a.parts, p));
}

/// An event of the messages wire that brings a piece of the arguments puts it behind those of the
/// part at its index, and changes nothing else; where there is no such part, it changes nothing at
/// all.
pub proof fn law_piece_goes_behind(a: AccV, j: JsonV, delta: JsonV, i: u64, s: Seq<char>)
    requires
        parts_sorted(a.parts),
        member(j, "type"@) == Some(JsonV::Text("content_block_delta"@)),
        member(j, "delta"@) == Some(delta),
        member(delta, "type"@) == Some(JsonV::Text("input_json_delta"@)),
        member(delta, "partial_json"@) == Some(JsonV::Text(s)),
        has_index(j, i),
    ensures
        ({
            let now = acc_with(a, WireApi::Messages, j);
            &&& now.done == a.done
            &&& parts_sorted(now.parts)
            &&& part_at(a.parts, i) is None ==> now == a
            &&& part_at(a.parts, i) matches Some(p) ==> part_at(now.parts, i) == Some(
                PartV { args: p.args + s, ..p },
            )
            &&& forall|k: u64|
                k != i ==> #[trigger] part_at(now.parts, k) == part_at(a.parts, k)
        }),
{
    lemma_delta_paths(j);
    lemma_kinds_differ();
    match part_at(a.parts, i) {
        Some(p) => {
            lemma_part_has_its_index(a.parts, i);
            let q = PartV { args: p.args + s, ..p };
            law_with_part(a.parts, q);
            assert(acc_with(a, WireApi::Messages, j).parts == with_part(a.parts, q));
        },
        None => {},
    }
}

proof fn lemma_kinds_differ()
    ensures
        "content_block_start"@ != "content_block_delta"@,
{
    reveal_strlit("content_block_start");
    reveal_strlit("content_block_delta");
    assert("content_block_start"@[14] == 's');
    assert("content_block_delta"@[14] == 'd');
}

proof fn lemma_part_has_its_index(parts: Seq<PartV>, i: u64)
    ensures
        part_at(parts, i) matches Some(p) ==> p.index == i,
    decreases parts.len(),
{
    if parts.len() > 0 && parts[0].index != i {
        lemma_part_has_its_index(parts.drop_first(), i);
    }
}

/// Two pieces of the arguments leave the same part behind as one piece with both texts would.
pub proof fn law_pieces_are_one_text(
    a: AccV,
    j1: JsonV,
    j2: JsonV,
    both: JsonV,
    d1: JsonV,
    d2: JsonV,
    d: JsonV,
    i: u64,
    s1: Seq<char>,
    s2: Seq<char>,
)
    requires
        parts_sorted(a.parts),
        forall|e: JsonV|
            e == j1 || e == j2 || e == both ==> #[trigger] member(e, "type"@) == Some(
                JsonV::Text("content_block_delta"@),
            ) && has_index(e, i),
        member(j1, "delta"@) == Some(d1),
        member(j2, "delta"@) == Some(d2),
        member(both, "delta"@) == Some(d),
        forall|e: JsonV|
            e == d1 || e == d2 || e == d ==> #[trigger] member(e, "type"@) == Some(
                JsonV::Text("input_json_delta"@),
            ),
        member(d1, "partial_json"@) == Some(JsonV::Text(s1)),
        member(d2, "partial_json"@) == Some(JsonV::Text(s2)),
        member(d, "partial_json"@) == Some(JsonV::Text(s1 + s2)),
    ensures
        ({
            let one = acc_with(acc_with(a, WireApi::Messages, j1), WireApi::Messages, j2);
            let whole = acc_with(a, WireApi::Messages, both);
            &&& one.done == whole.done
            &&& forall|k: u64| #[trigger] part_at(one.parts, k) == part_at(whole.parts, k)
        }),
{
    assert(member(j1, "type"@) is Some && member(j2, "type"@) is Some && member(both, "type"@)
        is Some);
    assert(member(d1, "type"@) is Some && member(d2, "type"@) is Some && member(d, "type"@)
        is Some);
    let first = acc_with(a, WireApi::Messages, j1);
    let one = acc_with(first, WireApi::Messages, j2);
    let whole = acc_with(a, WireApi::Messages, both);
    law_piece_goes_behind(a, j1, d1, i, s1);
    law_piece_goes_behind(first, j2, d2, i, s2);
    law_piece_goes_behind(a, both, d, i, s1 + s2);
    assert forall|k: u64| #[trigger] part_at(one.parts, k) == part_at(whole.parts, k) by {
        if k == i {
            match part_at(a.parts, i) {
                Some(p) => {
                    assert(p.args + s1 + s2 =~= p.args + (s1 + s2));
                },
                None => {},
            }
        }
    }
}

/// A piece of the chat wire gives the part at its index an id and a name where it has them, and
/// puts its arguments behind those that are there; a part that is not there yet starts empty. The
/// others stay as they are.
pub proof fn law_chat_piece_fills_its_part(parts: Seq<PartV>, piece: JsonV, i: u64)
    requires
        parts_sorted(parts),
        has_index(piece, i),
    ensures
        ({
            let now = parts_with(parts, seq![piece]);
            let before = match part_at(parts, i) {
                Some(p) => p,
                None => PartV {
                    index: i,
                    id: Seq::empty(),
                    name: Seq::empty(),
                    args: Seq::empty(),
                },
            };
            let f = member(piece, "function"@);
            &&& parts_sorted(now)
            &&& part_at(now, i) matches Some(p) && {
                &&& p.id == match member(piece, "id"@) {
                    Some(JsonV::Text(s)) => s,
                    _ => before.id,
                }
                &&& p.name == match below(f, "name"@) {
                    Some(JsonV::Text(s)) => s,
                    _ => before.name,
                }
                &&& p.args == match below(f, "arguments"@) {
                    Some(JsonV::Text(s)) => before.args + s,
                    _ => before.args,
                }
            }
            &&& forall|k: u64| k != i ==> #[trigger] part_at(now, k) == part_at(parts, k)
        }),
{
    lemma_function_paths(piece);
    let one = seq![piece];
    assert(one.drop_last() =~= Seq::empty());
    assert(parts_with(parts, one.drop_last()) == parts);
    assert(one.last() == piece);
    lemma_part_has_its_index(parts, i);
    let p = match part_at(parts, i) {
        Some(p) => p,
        None => crate::llm::stream::empty_part(i),
    };
    law_with_part(parts, part_with(p, piece));
}

/// The pieces of two lists, one behind the other, fill the parts as the one list and then the other
/// do.
pub proof fn law_pieces_come_one_by_one(parts: Seq<PartV>, a: Seq<JsonV>, b: Seq<JsonV>)
    ensures
        parts_with(parts, a + b) == parts_with(parts_with(parts, a), b),
        parts_with(parts, Seq::empty()) == parts,
    decreases b.len(),
{
    if b.len() == 0 {
        assert(a + b =~= a);
    } else {
        assert((a + b).drop_last() =~= a + b.drop_last());
        law_pieces_come_one_by_one(parts, a, b.drop_last());
    }
}

/// The parts stay in the order of their indices, whatever events come in.
pub proof fn law_parts_stay_in_order(a: AccV, wire: WireApi, j: JsonV)
    requires
        parts_sorted(a.parts),
    ensures
        parts_sorted(acc_with(a, wire, j).parts),
{
    let i = crate::llm::stream::event_index(j);
    let opened = PartV {
        index: i,
        id: text_or_empty(pointer(j, "/content_block/id"@)),
        name: text_or_empty(pointer(j, "/content_block/name"@)),
        args: Seq::empty(),
    };
    law_with_part(a.parts, opened);
    match part_at(a.parts, i) {
        Some(p) => {
            law_with_part(
                a.parts,
                PartV { args: p.args + text_or_empty(pointer(j, "/delta/partial_json"@)), ..p },
            );
        },
        None => {},
    }
    match crate::json::list_in(pointer(j, "/choices/0/delta/tool_calls"@)) {
        Some(pieces) => {
            lemma_pieces_in_order(a.parts, pieces);
        },
        None => {},
    }
}

proof fn lemma_pieces_in_order(parts: Seq<PartV>, pieces: Seq<JsonV>)
    requires
        parts_sorted(parts),
    ensures
        parts_sorted(parts_with(parts, pieces)),
    decreases pieces.len(),
{
    if pieces.len() > 0 {
        lemma_pieces_in_order(parts, pieces.drop_last());
        let before = parts_with(parts, pieces.drop_last());
        let j = pieces.last();
        let i = crate::llm::stream::event_index(j);
        let p = match part_at(before, i) {
            Some(p) => p,
            None => crate::llm::stream::empty_part(i),
        };
        law_with_part(before, part_with(p, j));
    }
}

/// An event of the chat wire brings the pieces under `tool_calls` of the delta of its first choice.
pub proof fn law_chat_event_brings_its_pieces(
    a: AccV,
    j: JsonV,
    choices: Seq<JsonV>,
    pieces: Seq<JsonV>,
)
    requires
        member(j, "choices"@) == Some(JsonV::List(choices)),
        choices.len() > 0,
        below(member(choices[0], "delta"@), "tool_calls"@) == Some(JsonV::List(pieces)),
    ensures
        acc_with(a, WireApi::ChatCompletions, j).parts == parts_with(a.parts, pieces),
        acc_with(a, WireApi::ChatCompletions, j).done == a.done,
{
    lemma_choice_paths(j, choices);
}

/// Every whole call and every part comes out as a call, the whole ones first: with its own id and
/// name, and for arguments the document that its text is, or no members where it is none.
pub proof fn law_every_part_is_a_call(a: AccV, k: int)
    requires
        0 <= k < a.parts.len(),
    ensures
        acc_calls(a).len() == a.done.len() + a.parts.len(),
        acc_calls(a).take(a.done.len() as int) == a.done,
        ({
            let c = acc_calls(a)[a.done.len() + k];
            let p = a.parts[k];
            &&& c.id == p.id && c.name == p.name
            &&& p.args.len() == 0 ==> c.arguments == JsonV::Object(Seq::empty())
            &&& trimmed(p.args).len() > 0 ==> match json_parsed(p.args) {
                Ok(d) => c.arguments == d,
                Err(_) => c.arguments == JsonV::Object(Seq::empty()),
            }
        }),
{
    assert(acc_calls(a).take(a.done.len() as int) =~= a.done);
    if a.parts[k].args.len() == 0 {
        assert(a.parts[k].args =~= Seq::empty());
        assert(trimmed(Seq::<char>::empty()).len() == 0);
    }
}

// Text

/// The text of a stream grows by the piece of an event, where the event has one: the text of the
/// delta of a block, the content of the delta of the first choice, or the delta itself.
pub proof fn law_text_grows_by_its_delta(s: StreamV, j: JsonV, choices: Seq<JsonV>, t: Seq<char>)
    ensures
        member(j, "type"@) == Some(JsonV::Text("content_block_delta"@)) && below(
            member(j, "delta"@),
            "text"@,
        ) == Some(JsonV::Text(t)) ==> stream_with(s, WireApi::Messages, j).text == s.text + t,
        member(j, "choices"@) == Some(JsonV::List(choices)) && choices.len() > 0 && below(
            member(choices[0], "delta"@),
            "content"@,
        ) == Some(JsonV::Text(t)) ==> stream_with(s, WireApi::ChatCompletions, j).text == s.text
            + t,
        member(j, "type"@) == Some(JsonV::Text("response.output_text.delta"@)) && member(
            j,
            "delta"@,
        ) == Some(JsonV::Text(t)) ==> stream_with(s, WireApi::Responses, j).text == s.text + t,
        member(j, "type"@) != Some(JsonV::Text("content_block_delta"@)) ==> stream_with(
            s,
            WireApi::Messages,
            j,
        ).text == s.text,
        member(j, "type"@) != Some(JsonV::Text("response.output_text.delta"@)) ==> stream_with(
            s,
            WireApi::Responses,
            j,
        ).text == s.text,
{
    lemma_delta_paths(j);
    if member(j, "choices"@) == Some(JsonV::List(choices)) && choices.len() > 0 {
        lemma_choice_paths(j, choices);
    }
    if t.len() == 0 {
        assert(s.text + t =~= s.text);
    }
}

// The end

/// A stream ends where an event says so, and never begins again: at the end of a message or of a
/// response, or where a reason to stop is given. It counts as cut short where that reason is that
/// the output ran out.
pub proof fn law_stream_ends(s: StreamV, j: JsonV, choices: Seq<JsonV>, reason: Seq<char>)
    ensures
        forall|wire: WireApi|
            (s.terminated ==> (#[trigger] stream_with(s, wire, j)).terminated) && (s.truncated
                ==> stream_with(s, wire, j).truncated),
        member(j, "type"@) == Some(JsonV::Text("message_stop"@)) ==> stream_with(
            s,
            WireApi::Messages,
            j,
        ).terminated,
        member(j, "type"@) == Some(JsonV::Text("message_delta"@)) && below(
            member(j, "delta"@),
            "stop_reason"@,
        ) == Some(JsonV::Text(reason)) ==> stream_with(s, WireApi::Messages, j).terminated && (
        stream_with(s, WireApi::Messages, j).truncated <==> s.truncated || reason == "max_tokens"@
            || reason == "length"@),
        member(j, "error"@) is None && member(j, "choices"@) == Some(JsonV::List(choices))
            && choices.len() > 0 && member(choices[0], "finish_reason"@) == Some(
            JsonV::Text(reason),
        ) ==> stream_with(s, WireApi::ChatCompletions, j).terminated && (stream_with(
            s,
            WireApi::ChatCompletions,
            j,
        ).truncated <==> s.truncated || reason == "max_tokens"@ || reason == "length"@),
        member(j, "type"@) == Some(JsonV::Text("response.completed"@)) ==> stream_with(
            s,
            WireApi::Responses,
            j,
        ).terminated && stream_with(s, WireApi::Responses, j).truncated == s.truncated,
        member(j, "type"@) == Some(JsonV::Text("response.incomplete"@)) ==> stream_with(
            s,
            WireApi::Responses,
            j,
        ).terminated && stream_with(s, WireApi::Responses, j).truncated,
{
    lemma_delta_paths(j);
    lemma_ends_differ();
    if member(j, "choices"@) == Some(JsonV::List(choices)) && choices.len() > 0 {
        lemma_choice_paths(j, choices);
    }
}

proof fn lemma_ends_differ()
    ensures
        "error"@.len() == 5,
        "message_stop"@.len() == 12,
        "message_delta"@.len() == 13,
        "response.failed"@.len() == 15,
        "response.completed"@.len() == 18,
        "response.incomplete"@.len() == 19,
{
    reveal_strlit("error");
    reveal_strlit("message_stop");
    reveal_strlit("message_delta");
    reveal_strlit("response.failed");
    reveal_strlit("response.completed");
    reveal_strlit("response.incomplete");
}

/// An event reports an error just where it is of the kind `error`, or of `response.failed`, or has
/// a member `error`, as its wire has it. The message is the one in the error, where there is one.
pub proof fn law_errors_are_reported(j: JsonV, m: Seq<char>)
    ensures
        signal_of(WireApi::Messages, j) is Error <==> member(j, "type"@) == Some(
            JsonV::Text("error"@),
        ),
        signal_of(WireApi::ChatCompletions, j) is Error <==> member(j, "error"@) is Some,
        signal_of(WireApi::Responses, j) is Error <==> member(j, "type"@) == Some(
            JsonV::Text("error"@),
        ) || member(j, "type"@) == Some(JsonV::Text("response.failed"@)),
        forall|wire: WireApi|
            below(member(j, "error"@), "message"@) == Some(JsonV::Text(m)) && (#[trigger] signal_of(
                wire,
                j,
            )) is Error ==> signal_of(wire, j) == SseSignalV::Error(m),
{
    lemma_ends_differ();
    reveal_strlit("error");
    reveal_strlit("message");
    reveal_strlit("/error/message");
    assert("/error/message"@ =~= seq!['/'] + "error"@ + seq!['/'] + "message"@);
    law_two_names(j, "/error/message"@, "error"@, "message"@);
}

} // verus!
