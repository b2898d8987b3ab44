//! What every step of a turn does to the conversation, and what it tells.

use crate::agent::{
    capped, turn_step, EvV, ItemV, TURN_ABORTED_MARKER, TurnAct, TurnInputV, TurnResponseV, TurnV,
};
use crate::strs::lines_of;
use crate::text::byte_len;
use crate::tools::ToolCallV;
use vstd::prelude::*;

verus! {

/// A reply without calls ends the turn. What it says is the last item of the turn, the items of the
/// turn are told, and the history is what it was at the start.
pub proof fn law_answer_ends_the_turn(
    t: TurnV,
    r: TurnResponseV,
    cancelled: bool,
    ms: u64,
    provider: Seq<char>,
)
    requires
        r.tool_calls.len() == 0,
        t.base_len <= t.history.len(),
    ensures
        ({
            let (now, evs, act) = turn_step(t, TurnInputV::Reply(r), cancelled, ms, provider);
            let items = t.history.skip(t.base_len as int);
            &&& act == TurnAct::Over
            &&& now.history == t.history.take(t.base_len as int)
            &&& r.text.len() > 0 ==> evs == seq![
                EvV::AssistantDone { text: r.text },
                EvV::TurnComplete {
                    items: items.push(ItemV::Assistant { text: r.text }),
                    ms,
                    provider,
                },
            ]
            &&& r.text.len() == 0 ==> evs == seq![EvV::TurnComplete { items, ms, provider }]
        }),
{
    let base = t.base_len as int;
    let said = t.history.push(ItemV::Assistant { text: r.text });
    let (now, evs, act) = turn_step(t, TurnInputV::Reply(r), cancelled, ms, provider);
    assert(said.take(base) =~= t.history.take(base));
    assert(said.skip(base) =~= t.history.skip(base).push(ItemV::Assistant { text: r.text }));
    if r.text.len() > 0 {
        assert(evs =~= seq![
            EvV::AssistantDone { text: r.text },
            EvV::TurnComplete {
                items: t.history.skip(base).push(ItemV::Assistant { text: r.text }),
                ms,
                provider,
            },
        ]);
    } else {
        assert(evs =~= seq![EvV::TurnComplete { items: t.history.skip(base), ms, provider }]);
    }
}

/// A reply with calls lets the first of them run: it goes into the history behind what was said,
/// and the others wait in their order.
pub proof fn law_first_call_runs(
    t: TurnV,
    r: TurnResponseV,
    ms: u64,
    provider: Seq<char>,
)
    requires
        r.tool_calls.len() > 0,
    ensures
        ({
            let (now, evs, act) = turn_step(t, TurnInputV::Reply(r), false, ms, provider);
            let c = r.tool_calls[0];
            let said = if r.text.len() > 0 {
                seq![ItemV::Assistant { text: r.text }]
            } else {
                Seq::empty()
            };
            &&& act == TurnAct::Run
            &&& now.current == Some(c)
            &&& now.queue == r.tool_calls.skip(1)
            &&& now.history == t.history + said + seq![
                ItemV::ToolCall { call_id: c.id, name: c.name, args: c.arguments },
            ]
            &&& evs.last() == (EvV::ToolBegin { call_id: c.id, name: c.name, args: c.arguments })
        }),
{
    let (now, evs, act) = turn_step(t, TurnInputV::Reply(r), false, ms, provider);
    let c = r.tool_calls[0];
    let call = ItemV::ToolCall { call_id: c.id, name: c.name, args: c.arguments };
    assert(r.tool_calls.drop_first() =~= r.tool_calls.skip(1));
    if r.text.len() > 0 {
        assert(now.history =~= t.history + seq![ItemV::Assistant { text: r.text }] + seq![call]);
    } else {
        assert(now.history =~= t.history + Seq::empty() + seq![call]);
    }
}

/// The output of the call that runs goes into the history under its id, cut to the caps where the
/// call succeeded and marked as an error where it failed. The next call that waits runs then; where
/// none does, the model is asked again.
pub proof fn law_output_goes_under_its_call(
    t: TurnV,
    c: ToolCallV,
    output: Seq<char>,
    ok: bool,
    ms: u64,
    provider: Seq<char>,
)
    requires
        t.current == Some(c),
    ensures
        ({
            let input = if ok {
                TurnInputV::Output(output)
            } else {
                TurnInputV::NoOutput(output)
            };
            let shown = if ok {
                capped(output)
            } else {
                output
            };
            let (now, evs, act) = turn_step(t, input, false, ms, provider);
            let answered = t.history.push(
                ItemV::ToolOutput { call_id: c.id, output: shown, is_error: !ok },
            );
            &&& evs[0] == (EvV::ToolEnd { call_id: c.id, output: shown, ok })
            &&& t.queue.len() == 0 ==> act == TurnAct::Ask && now.history == answered
                && now.current is None && evs.len() == 1
            &&& t.queue.len() > 0 ==> act == TurnAct::Run && now.current == Some(t.queue[0])
                && now.queue == t.queue.skip(1) && now.history == answered.push(
                ItemV::ToolCall {
                    call_id: t.queue[0].id,
                    name: t.queue[0].name,
                    args: t.queue[0].arguments,
                },
            ) && evs[1] == (EvV::ToolBegin {
                call_id: t.queue[0].id,
                name: t.queue[0].name,
                args: t.queue[0].arguments,
            })
        }),
{
    if t.queue.len() > 0 {
        assert(t.queue.drop_first() =~= t.queue.skip(1));
    }
}

/// Where no reply came the turn ends with the error, its items are told, and the history is what it
/// was at the start.
pub proof fn law_missing_reply_fails_the_turn(
    t: TurnV,
    error: Seq<char>,
    ms: u64,
    provider: Seq<char>,
)
    ensures
        ({
            let (now, evs, act) = turn_step(t, TurnInputV::NoReply(error), false, ms, provider);
            &&& act == TurnAct::Over
            &&& now.history == t.history.take(t.base_len as int)
            &&& evs == seq![
                EvV::Failed { error, items: t.history.skip(t.base_len as int) },
            ]
        }),
{
}

/// An interrupt ends the turn at the next step, but for one that ends it anyway. The items of the
/// turn are told, with the marker of an interrupted turn as the last one, and the history is what
/// it was at the start.
pub proof fn law_interrupt_ends_the_turn(
    t: TurnV,
    input: TurnInputV,
    ms: u64,
    provider: Seq<char>,
)
    requires
        t.base_len <= t.history.len(),
        input matches TurnInputV::Reply(r) ==> r.tool_calls.len() > 0,
        input is Output || input is NoOutput ==> t.current is Some,
    ensures
        ({
            let (now, evs, act) = turn_step(t, input, true, ms, provider);
            &&& act == TurnAct::Over
            &&& now.history == t.history.take(t.base_len as int)
            &&& now.current is None && now.queue.len() == 0
            &&& evs.len() > 0 && (evs.last() matches EvV::TurnAborted { items } && items.len() > 0
                && items.last() == (ItemV::User { text: TURN_ABORTED_MARKER@ })
                && t.history.skip(t.base_len as int) == items.take(
                t.history.len() - t.base_len,
            ))
        }),
{
    let base = t.base_len as int;
    let n = t.history.len() as int;
    let (now, evs, act) = turn_step(t, input, true, ms, provider);
    assert(now.history =~= t.history.take(base));
    match evs.last() {
        EvV::TurnAborted { items } => {
            assert(items.take(n - base) =~= t.history.skip(base));
        },
        _ => {},
    }
}

/// An output within the caps of 2000 lines and 51200 bytes is kept as it is.
pub proof fn law_small_outputs_are_kept(s: Seq<char>)
    requires
        byte_len(s) <= 51200,
        lines_of(s).len() <= 2000,
    ensures
        capped(s) == s,
{
}

} // verus!
