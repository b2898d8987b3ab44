//! The conversation with a model: its history, and the loop of requests and tool calls.

use crate::json::{text, Json, JsonV};
use crate::strs::{cat2, cat5, dec, decimal_len, lines, lines_of, push_char, same, views};
use crate::text::{byte_len, bytes_up_to, lemma_byte_len_add};
use crate::tools::{calls_view, ToolCall, ToolCallV};
use vstd::prelude::*;

pub mod laws;
use vstd::string::StringExecFns;

verus! {

/// One item of the history.
#[derive(Debug)]
pub enum Item {
    User { text: String },
    Assistant { text: String },
    ToolCall { call_id: String, name: String, args: Json },
    ToolOutput { call_id: String, output: String, is_error: bool },
}

#[verifier::ext_equal]
pub enum ItemV {
    User { text: Seq<char> },
    Assistant { text: Seq<char> },
    ToolCall { call_id: Seq<char>, name: Seq<char>, args: JsonV },
    ToolOutput { call_id: Seq<char>, output: Seq<char>, is_error: bool },
}

impl View for Item {
    type V = ItemV;

    open spec fn view(&self) -> ItemV {
        match self {
            Item::User { text } => ItemV::User { text: text@ },
            Item::Assistant { text } => ItemV::Assistant { text: text@ },
            Item::ToolCall { call_id, name, args } => ItemV::ToolCall {
                call_id: call_id@,
                name: name@,
                args: args@,
            },
            Item::ToolOutput { call_id, output, is_error } => ItemV::ToolOutput {
                call_id: call_id@,
                output: output@,
                is_error: *is_error,
            },
        }
    }
}

pub open spec fn items_view(v: Seq<Item>) -> Seq<ItemV> {
    v.map_values(|i: Item| i@)
}

pub proof fn lemma_items_push(v: Seq<Item>, i: Item)
    ensures
        items_view(v.push(i)) == items_view(v).push(i@),
{
    assert(items_view(v.push(i)) =~= items_view(v).push(i@));
}

// Output caps

/// The most lines that the output of a tool keeps.
pub const MAX_OUTPUT_LINES: usize = 2000;

/// The most bytes that the output of a tool keeps.
pub const MAX_OUTPUT_BYTES: usize = 51200;

/// The lines `0..n`, each ended by a line feed.
pub open spec fn ended_lines(lines: Seq<Seq<char>>, n: int) -> Seq<char>
    decreases n,
{
    if n <= 0 || n > lines.len() {
        Seq::empty()
    } else {
        ended_lines(lines, n - 1) + lines[n - 1] + seq!['\n']
    }
}

/// How many lines, counted from the first, fit into both caps, where `n` lines do.
pub open spec fn lines_kept(lines: Seq<Seq<char>>, n: int) -> int
    decreases lines.len() - n,
{
    if n < 0 || n >= lines.len() || n >= MAX_OUTPUT_LINES || byte_len(ended_lines(lines, n))
        + byte_len(lines[n]) + 1 > MAX_OUTPUT_BYTES {
        n
    } else {
        lines_kept(lines, n + 1)
    }
}

/// The output of a tool within the caps: whole lines, and a note on what was left out.
pub open spec fn capped(s: Seq<char>) -> Seq<char> {
    let lines = lines_of(s);
    if byte_len(s) <= MAX_OUTPUT_BYTES && lines.len() <= MAX_OUTPUT_LINES {
        s
    } else {
        let kept = lines_kept(lines, 0);
        ended_lines(lines, kept) + ("[truncated: kept first "@ + dec(kept as nat) + " of "@ + dec(
            lines.len(),
        ) + " lines]"@)
    }
}

/// What is kept of an output that is over a cap are its first lines, whole, within both caps.
pub proof fn law_kept_lines_fit(lines: Seq<Seq<char>>)
    ensures
        0 <= lines_kept(lines, 0) <= lines.len(),
        lines_kept(lines, 0) <= MAX_OUTPUT_LINES,
        byte_len(ended_lines(lines, lines_kept(lines, 0))) <= MAX_OUTPUT_BYTES,
{
    lemma_kept_fit(lines, 0);
}

proof fn lemma_kept_fit(lines: Seq<Seq<char>>, n: int)
    requires
        0 <= n <= lines.len(),
        n <= MAX_OUTPUT_LINES,
        byte_len(ended_lines(lines, n)) <= MAX_OUTPUT_BYTES,
    ensures
        n <= lines_kept(lines, n) <= lines.len(),
        lines_kept(lines, n) <= MAX_OUTPUT_LINES,
        byte_len(ended_lines(lines, lines_kept(lines, n))) <= MAX_OUTPUT_BYTES,
    decreases lines.len() - n,
{
    if n < lines.len() && n < MAX_OUTPUT_LINES && byte_len(ended_lines(lines, n)) + byte_len(
        lines[n],
    ) + 1 <= MAX_OUTPUT_BYTES {
        lemma_ended_bytes(lines, n);
        lemma_kept_fit(lines, n + 1);
    }
}

proof fn lemma_ended_bytes(lines: Seq<Seq<char>>, n: int)
    requires
        0 <= n < lines.len(),
    ensures
        byte_len(ended_lines(lines, n + 1)) == byte_len(ended_lines(lines, n)) + byte_len(lines[n])
            + 1,
{
    let a = ended_lines(lines, n);
    lemma_byte_len_add(a, lines[n]);
    lemma_byte_len_add(a + lines[n], seq!['\n']);
    assert(seq!['\n'].drop_last() =~= Seq::<char>::empty());
    assert(byte_len(seq!['\n']) == 1) by {
        reveal_with_fuel(byte_len, 2);
    }
}

/// Caps the output of a tool.
pub fn truncate_output(s: &str) -> (r: String)
    ensures
        r@ == capped(s@),
{
    let all = lines(s);
    if bytes_up_to(s, MAX_OUTPUT_BYTES) <= MAX_OUTPUT_BYTES && all.len() <= MAX_OUTPUT_LINES {
        return s.to_owned();
    }
    let ghost parts = lines_of(s@);
    let mut out = String::new();
    let mut used: usize = 0;
    let mut kept: usize = 0;
    while kept < all.len()
        invariant_except_break
            lines_kept(parts, 0) == lines_kept(parts, kept as int),
        invariant
            kept <= all@.len(),
            views(all@) == parts,
            kept <= MAX_OUTPUT_LINES,
            out@ == ended_lines(parts, kept as int),
            used == byte_len(out@),
            used <= MAX_OUTPUT_BYTES,
        ensures
            kept == lines_kept(parts, 0),
        decreases all.len() - kept,
    {
        assert(parts[kept as int] == all@[kept as int]@);
        let n: usize = bytes_up_to(all[kept].as_str(), MAX_OUTPUT_BYTES);
        if kept >= MAX_OUTPUT_LINES || used + n + 1 > MAX_OUTPUT_BYTES {
            break;
        }
        proof {
            lemma_ended_bytes(parts, kept as int);
        }
        out.append(all[kept].as_str());
        push_char(&mut out, '\n');
        assert(out@ =~= ended_lines(parts, kept + 1));
        used = used + n + 1;
        kept += 1;
    }
    let note = cat5(
        "[truncated: kept first ",
        decimal_len(kept).as_str(),
        " of ",
        decimal_len(all.len()).as_str(),
        " lines]",
    );
    assert(views(all@).len() == all@.len());
    cat2(out.as_str(), note.as_str())
}

// Healing

/// What stands in the history after a turn that the user interrupted.
pub const TURN_ABORTED_MARKER: &'static str = "<turn_aborted>The user interrupted the previous turn. Tools may have partially executed.</turn_aborted>";

/// Whether some item is the output of the call with this id.
pub open spec fn answered(h: Seq<ItemV>, id: Seq<char>) -> bool {
    exists|k: int| 0 <= k < h.len() && is_output_of(#[trigger] h[k], id)
}

pub open spec fn is_output_of(i: ItemV, id: Seq<char>) -> bool {
    i matches ItemV::ToolOutput { call_id, .. } && call_id == id
}

/// The output that is put in for a call that never got one.
pub open spec fn aborted_output(id: Seq<char>) -> ItemV {
    ItemV::ToolOutput { call_id: id, output: "aborted before completion"@, is_error: true }
}

/// Whether an item is a call that no item of `h` answers.
pub open spec fn dangling(i: ItemV, h: Seq<ItemV>) -> bool {
    i matches ItemV::ToolCall { call_id, .. } && !answered(h, call_id)
}

/// The first `n` items, with the aborted output right behind each call that no item of `h`
/// answers.
pub open spec fn healed_upto(h: Seq<ItemV>, n: int) -> Seq<ItemV>
    decreases n,
{
    if n <= 0 {
        Seq::empty()
    } else {
        let before = healed_upto(h, n - 1).push(h[n - 1]);
        if dangling(h[n - 1], h) {
            before.push(aborted_output(h[n - 1]->ToolCall_call_id))
        } else {
            before
        }
    }
}

/// The history with an output for every call.
pub open spec fn healed(h: Seq<ItemV>) -> Seq<ItemV> {
    healed_upto(h, h.len() as int)
}

fn has_output(h: &Vec<Item>, id: &str) -> (r: bool)
    ensures
        r == answered(items_view(h@), id@),
{
    let mut i: usize = 0;
    while i < h.len()
        invariant
            i <= h@.len(),
            forall|k: int|
                0 <= k < i ==> !is_output_of(#[trigger] items_view(h@)[k], id@),
        decreases h.len() - i,
    {
        assert(items_view(h@)[i as int] == h@[i as int]@);
        match &h[i] {
            Item::ToolOutput { call_id, .. } => {
                if same(call_id.as_str(), id) {
                    return true;
                }
            },
            _ => {},
        }
        i += 1;
    }
    false
}

/// The id of a call that no item answers.
fn dangling_id(h: &Vec<Item>, i: usize) -> (r: Option<String>)
    requires
        i < h@.len(),
    ensures
        match r {
            Some(id) => dangling(h@[i as int]@, items_view(h@)) && id@
                == h@[i as int]@->ToolCall_call_id,
            None => !dangling(h@[i as int]@, items_view(h@)),
        },
{
    match &h[i] {
        Item::ToolCall { call_id, .. } => if has_output(h, call_id.as_str()) {
            None
        } else {
            Some(call_id.clone())
        },
        _ => None,
    }
}

/// Puts in an output for every call that has none, right behind it.
pub fn heal_history(history: &mut Vec<Item>)
    ensures
        items_view(final(history)@) == healed(items_view(old(history)@)),
{
    let ghost h = items_view(history@);
    let n: usize = history.len();
    let mut missing: Vec<Option<String>> = Vec::new();
    let mut i: usize = 0;
    while i < n
        invariant
            i <= n == history@.len(),
            h == items_view(history@),
            missing@.len() == i,
            forall|k: int|
                0 <= k < i ==> match #[trigger] missing@[k] {
                    Some(id) => dangling(h[k], h) && id@ == h[k]->ToolCall_call_id,
                    None => !dangling(h[k], h),
                },
        decreases n - i,
    {
        assert(h[i as int] == history@[i as int]@);
        missing.push(dangling_id(history, i));
        i += 1;
    }
    let mut rest: Vec<Item> = Vec::new();
    rest.append(history);
    let mut out: Vec<Item> = Vec::new();
    let ghost all = rest@;
    assert(items_view(out@) =~= healed_upto(h, 0));
    let mut i: usize = 0;
    while i < n
        invariant
            i <= n == all.len(),
            n == missing@.len(),
            h == items_view(all),
            rest@ == all.skip(i as int),
            items_view(out@) == healed_upto(h, i as int),
            forall|k: int|
                0 <= k < n ==> match #[trigger] missing@[k] {
                    Some(id) => dangling(h[k], h) && id@ == h[k]->ToolCall_call_id,
                    None => !dangling(h[k], h),
                },
        decreases n - i,
    {
        let item = rest.remove(0);
        assert(rest@ =~= all.skip(i + 1));
        assert(h[i as int] == item@);
        proof {
            lemma_items_push(out@, item);
        }
        out.push(item);
        match &missing[i] {
            Some(id) => {
                let made = Item::ToolOutput {
                    call_id: id.clone(),
                    output: "aborted before completion".to_owned(),
                    is_error: true,
                };
                proof {
                    lemma_items_push(out@, made);
                }
                out.push(made);
            },
            None => {},
        }
        i += 1;
    }
    *history = out;
}

/// Where an item of the history comes to stand in the healed one.
proof fn lemma_healed_keeps(h: Seq<ItemV>, n: int, k: int)
    requires
        0 <= k < n <= h.len(),
    ensures
        exists|j: int|
            0 <= j < healed_upto(h, n).len() && #[trigger] healed_upto(h, n)[j] == h[k],
    decreases n,
{
    let prev = healed_upto(h, n - 1);
    if k < n - 1 {
        lemma_healed_keeps(h, n - 1, k);
        let j = choose|j: int| 0 <= j < prev.len() && #[trigger] prev[j] == h[k];
        assert(healed_upto(h, n)[j] == h[k]);
    } else {
        assert(healed_upto(h, n)[prev.len() as int] == h[k]);
    }
}

/// An item of the healed history is one of the history, or the output put in for a dangling call
/// of it, which then stands in it too.
proof fn lemma_healed_from(h: Seq<ItemV>, n: int, j: int)
    requires
        0 <= n <= h.len(),
        0 <= j < healed_upto(h, n).len(),
    ensures
        exists|k: int|
            0 <= k < n && (healed_upto(h, n)[j] == #[trigger] h[k] || (dangling(h[k], h)
                && healed_upto(h, n)[j] == aborted_output(h[k]->ToolCall_call_id))),
    decreases n,
{
    if n > 0 {
        let prev = healed_upto(h, n - 1);
        if j < prev.len() {
            lemma_healed_from(h, n - 1, j);
            let k = choose|k: int|
                0 <= k < n - 1 && (prev[j] == #[trigger] h[k] || (dangling(h[k], h) && prev[j]
                    == aborted_output(h[k]->ToolCall_call_id)));
            assert(healed_upto(h, n)[j] == prev[j]);
            assert(0 <= k < n && (healed_upto(h, n)[j] == h[k] || (dangling(h[k], h)
                && healed_upto(h, n)[j] == aborted_output(h[k]->ToolCall_call_id))));
        } else {
            assert(0 <= n - 1 < n && (healed_upto(h, n)[j] == h[n - 1] || (dangling(h[n - 1], h)
                && healed_upto(h, n)[j] == aborted_output(h[n - 1]->ToolCall_call_id))));
        }
    }
}

proof fn lemma_healed_answers(h: Seq<ItemV>, n: int, k: int)
    requires
        0 <= k < n <= h.len(),
        dangling(h[k], h),
    ensures
        answered(healed_upto(h, n), h[k]->ToolCall_call_id),
    decreases n,
{
    let id = h[k]->ToolCall_call_id;
    let now = healed_upto(h, n);
    let prev = healed_upto(h, n - 1);
    if k < n - 1 {
        lemma_healed_answers(h, n - 1, k);
        let j = choose|j: int| 0 <= j < prev.len() && is_output_of(#[trigger] prev[j], id);
        assert(is_output_of(now[j], id));
    } else {
        assert(is_output_of(now[now.len() - 1], id));
    }
}

/// After healing every call has an output.
pub proof fn law_healed_history_is_answered(h: Seq<ItemV>)
    ensures
        forall|j: int| 0 <= j < healed(h).len() ==> !dangling(#[trigger] healed(h)[j], healed(h)),
{
    let out = healed(h);
    assert forall|j: int| 0 <= j < out.len() implies !dangling(#[trigger] out[j], out) by {
        if out[j] is ToolCall {
            let id = out[j]->ToolCall_call_id;
            lemma_healed_from(h, h.len() as int, j);
            let k = choose|k: int|
                0 <= k < h.len() && (out[j] == #[trigger] h[k] || (dangling(h[k], h) && out[j]
                    == aborted_output(h[k]->ToolCall_call_id)));
            assert(out[j] == h[k]);
            if dangling(h[k], h) {
                lemma_healed_answers(h, h.len() as int, k);
            } else {
                let m = choose|m: int| 0 <= m < h.len() && is_output_of(#[trigger] h[m], id);
                lemma_healed_keeps(h, h.len() as int, m);
                let p = choose|p: int| 0 <= p < out.len() && #[trigger] out[p] == h[m];
                assert(is_output_of(out[p], id));
            }
            assert(answered(out, id));
        }
    }
}

proof fn lemma_healed_same(h: Seq<ItemV>, n: int)
    requires
        0 <= n <= h.len(),
        forall|j: int| 0 <= j < h.len() ==> !dangling(#[trigger] h[j], h),
    ensures
        healed_upto(h, n) == h.take(n),
    decreases n,
{
    if n > 0 {
        lemma_healed_same(h, n - 1);
        assert(!dangling(h[n - 1], h));
        assert(h.take(n) =~= h.take(n - 1).push(h[n - 1]));
    } else {
        assert(h.take(0) =~= Seq::empty());
    }
}

/// A history in which every call has an output stays as it is.
pub proof fn law_answered_history_is_kept(h: Seq<ItemV>)
    requires
        forall|j: int| 0 <= j < h.len() ==> !dangling(#[trigger] h[j], h),
    ensures
        healed(h) == h,
{
    lemma_healed_same(h, h.len() as int);
    assert(h.take(h.len() as int) =~= h);
}

/// Healing a healed history changes nothing.
pub proof fn law_healing_twice_is_healing_once(h: Seq<ItemV>)
    ensures
        healed(healed(h)) == healed(h),
{
    law_healed_history_is_answered(h);
    law_answered_history_is_kept(healed(h));
}

/// Whether an item is an output put in for a call that never got one.
pub open spec fn is_aborted(i: ItemV) -> bool {
    i matches ItemV::ToolOutput { call_id, .. } && i == aborted_output(call_id)
}

/// The items that are no aborted output.
pub open spec fn without_aborted(h: Seq<ItemV>) -> Seq<ItemV> {
    h.filter(|i: ItemV| !is_aborted(i))
}

proof fn lemma_without_aborted_push(h: Seq<ItemV>, i: ItemV)
    ensures
        without_aborted(h.push(i)) == (if is_aborted(i) {
            without_aborted(h)
        } else {
            without_aborted(h).push(i)
        }),
{
    reveal(Seq::filter);
    assert(h.push(i).drop_last() =~= h);
}

proof fn lemma_healed_filter(h: Seq<ItemV>, n: int)
    requires
        0 <= n <= h.len(),
    ensures
        without_aborted(healed_upto(h, n)) == without_aborted(h.take(n)),
    decreases n,
{
    if n > 0 {
        lemma_healed_filter(h, n - 1);
        let prev = healed_upto(h, n - 1);
        lemma_without_aborted_push(prev, h[n - 1]);
        lemma_without_aborted_push(h.take(n - 1), h[n - 1]);
        assert(h.take(n) =~= h.take(n - 1).push(h[n - 1]));
        if dangling(h[n - 1], h) {
            lemma_without_aborted_push(
                prev.push(h[n - 1]),
                aborted_output(h[n - 1]->ToolCall_call_id),
            );
        }
    } else {
        assert(h.take(0) =~= Seq::empty());
    }
}

/// Healing adds aborted outputs and nothing else: what else stands in the history stays, in its
/// order.
pub proof fn law_healing_only_adds_aborted_outputs(h: Seq<ItemV>)
    ensures
        without_aborted(healed(h)) == without_aborted(h),
        healed(h).len() >= h.len(),
{
    lemma_healed_filter(h, h.len() as int);
    assert(h.take(h.len() as int) =~= h);
    lemma_healed_len(h, h.len() as int);
}

proof fn lemma_healed_len(h: Seq<ItemV>, n: int)
    requires
        0 <= n <= h.len(),
    ensures
        healed_upto(h, n).len() >= n,
    decreases n,
{
    if n > 0 {
        lemma_healed_len(h, n - 1);
    }
}


// The turn

/// What one request to the model brought.
#[derive(Debug)]
pub struct TurnResponse {
    pub text: String,
    pub tool_calls: Vec<ToolCall>,
    /// Whether the model stopped because it ran out of output.
    pub truncated: bool,
}

#[verifier::ext_equal]
pub struct TurnResponseV {
    pub text: Seq<char>,
    pub tool_calls: Seq<ToolCallV>,
    pub truncated: bool,
}

impl View for TurnResponse {
    type V = TurnResponseV;

    open spec fn view(&self) -> TurnResponseV {
        TurnResponseV {
            text: self.text@,
            tool_calls: calls_view(self.tool_calls@),
            truncated: self.truncated,
        }
    }
}

/// What a turn tells its listener.
#[derive(Debug)]
pub enum Ev {
    AssistantDelta(String),
    AssistantDone { text: String },
    ToolBegin { call_id: String, name: String, args: Json },
    ToolEnd { call_id: String, output: String, ok: bool },
    /// The turn ended, with the items that it appended.
    TurnComplete { items: Vec<Item>, ms: u64, provider: String },
    /// The user interrupted the turn; the marker stands behind the items.
    TurnAborted { items: Vec<Item> },
    Failed { error: String, items: Vec<Item> },
}

#[verifier::ext_equal]
pub enum EvV {
    AssistantDelta(Seq<char>),
    AssistantDone { text: Seq<char> },
    ToolBegin { call_id: Seq<char>, name: Seq<char>, args: JsonV },
    ToolEnd { call_id: Seq<char>, output: Seq<char>, ok: bool },
    TurnComplete { items: Seq<ItemV>, ms: u64, provider: Seq<char> },
    TurnAborted { items: Seq<ItemV> },
    Failed { error: Seq<char>, items: Seq<ItemV> },
}

impl View for Ev {
    type V = EvV;

    open spec fn view(&self) -> EvV {
        match self {
            Ev::AssistantDelta(t) => EvV::AssistantDelta(t@),
            Ev::AssistantDone { text } => EvV::AssistantDone { text: text@ },
            Ev::ToolBegin { call_id, name, args } => EvV::ToolBegin {
                call_id: call_id@,
                name: name@,
                args: args@,
            },
            Ev::ToolEnd { call_id, output, ok } => EvV::ToolEnd {
                call_id: call_id@,
                output: output@,
                ok: *ok,
            },
            Ev::TurnComplete { items, ms, provider } => EvV::TurnComplete {
                items: items_view(items@),
                ms: *ms,
                provider: provider@,
            },
            Ev::TurnAborted { items } => EvV::TurnAborted { items: items_view(items@) },
            Ev::Failed { error, items } => EvV::Failed {
                error: error@,
                items: items_view(items@),
            },
        }
    }
}

pub open spec fn evs_view(v: Seq<Ev>) -> Seq<EvV> {
    v.map_values(|e: Ev| e@)
}

proof fn lemma_evs_push(v: Seq<Ev>, e: Ev)
    ensures
        evs_view(v.push(e)) == evs_view(v).push(e@),
{
    assert(evs_view(v.push(e)) =~= evs_view(v).push(e@));
}

/// What comes in while a turn runs: the reply to a request or its failure, the output of a tool
/// or its failure.
pub enum TurnInput {
    Reply(TurnResponse),
    NoReply(String),
    Output(String),
    NoOutput(String),
}

pub enum TurnInputV {
    Reply(TurnResponseV),
    NoReply(Seq<char>),
    Output(Seq<char>),
    NoOutput(Seq<char>),
}

impl View for TurnInput {
    type V = TurnInputV;

    open spec fn view(&self) -> TurnInputV {
        match self {
            TurnInput::Reply(r) => TurnInputV::Reply(r@),
            TurnInput::NoReply(e) => TurnInputV::NoReply(e@),
            TurnInput::Output(o) => TurnInputV::Output(o@),
            TurnInput::NoOutput(e) => TurnInputV::NoOutput(e@),
        }
    }
}

/// What is to be done next: send the history to the model, run the current call, or nothing more.
#[derive(Debug, Clone, Copy, PartialEq, Eq, Structural)]
pub enum TurnAct {
    Ask,
    Run,
    Over,
}

/// A turn under way: the history, how long it was when the turn began, the call that is being run
/// and the calls that wait.
#[derive(Debug)]
pub struct Turn {
    pub history: Vec<Item>,
    pub base_len: usize,
    pub current: Option<ToolCall>,
    pub queue: Vec<ToolCall>,
}

#[verifier::ext_equal]
pub struct TurnV {
    pub history: Seq<ItemV>,
    pub base_len: nat,
    pub current: Option<ToolCallV>,
    pub queue: Seq<ToolCallV>,
}

pub open spec fn opt_call(o: Option<ToolCall>) -> Option<ToolCallV> {
    match o {
        Some(c) => Some(c@),
        None => None,
    }
}

impl View for Turn {
    type V = TurnV;

    open spec fn view(&self) -> TurnV {
        TurnV {
            history: items_view(self.history@),
            base_len: self.base_len as nat,
            current: opt_call(self.current),
            queue: calls_view(self.queue@),
        }
    }
}

pub open spec fn call_item(c: ToolCallV) -> ItemV {
    ItemV::ToolCall { call_id: c.id, name: c.name, args: c.arguments }
}

/// The turn cut short: the marker goes into the history, and the items of the turn come out.
pub open spec fn abort_turn(t: TurnV, evs: Seq<EvV>) -> (TurnV, Seq<EvV>, TurnAct) {
    let full = t.history.push(ItemV::User { text: TURN_ABORTED_MARKER@ });
    (
        TurnV { history: full.take(t.base_len as int), current: None, queue: Seq::empty(), ..t },
        evs.push(EvV::TurnAborted { items: full.skip(t.base_len as int) }),
        TurnAct::Over,
    )
}

/// The next waiting call goes into the history and is run; with none waiting the model is asked
/// again. An interrupt ends the turn either way.
pub open spec fn next_call(t: TurnV, evs: Seq<EvV>, cancelled: bool) -> (
    TurnV,
    Seq<EvV>,
    TurnAct,
) {
    if t.queue.len() == 0 {
        if cancelled {
            abort_turn(t, evs)
        } else {
            (TurnV { current: None, ..t }, evs, TurnAct::Ask)
        }
    } else {
        let c = t.queue[0];
        let begun = TurnV {
            history: t.history.push(call_item(c)),
            current: Some(c),
            queue: t.queue.drop_first(),
            ..t
        };
        if cancelled {
            abort_turn(begun, evs)
        } else {
            (
                begun,
                evs.push(EvV::ToolBegin { call_id: c.id, name: c.name, args: c.arguments }),
                TurnAct::Run,
            )
        }
    }
}

/// The output of the current call goes into the history.
pub open spec fn with_output(t: TurnV, output: Seq<char>, ok: bool, cancelled: bool) -> (
    TurnV,
    Seq<EvV>,
    TurnAct,
) {
    match t.current {
        None => (t, Seq::empty(), TurnAct::Over),
        Some(c) => next_call(
            TurnV {
                history: t.history.push(
                    ItemV::ToolOutput { call_id: c.id, output, is_error: !ok },
                ),
                current: None,
                ..t
            },
            seq![EvV::ToolEnd { call_id: c.id, output, ok }],
            cancelled,
        ),
    }
}

/// One step of a turn: what it becomes, what is told and what is to be done next.
pub open spec fn turn_step(
    t: TurnV,
    input: TurnInputV,
    cancelled: bool,
    ms: u64,
    provider: Seq<char>,
) -> (TurnV, Seq<EvV>, TurnAct) {
    let base = t.base_len as int;
    match input {
        TurnInputV::NoReply(error) => if cancelled {
            abort_turn(t, Seq::empty())
        } else {
            (
                TurnV {
                    history: t.history.take(base),
                    current: None,
                    queue: Seq::empty(),
                    ..t
                },
                seq![EvV::Failed { error, items: t.history.skip(base) }],
                TurnAct::Over,
            )
        },
        TurnInputV::Reply(r) => {
            let said = if r.text.len() > 0 {
                t.history.push(ItemV::Assistant { text: r.text })
            } else {
                t.history
            };
            let told = if r.text.len() > 0 {
                seq![EvV::AssistantDone { text: r.text }]
            } else {
                Seq::empty()
            };
            if r.tool_calls.len() == 0 {
                (
                    TurnV {
                        history: said.take(base),
                        current: None,
                        queue: Seq::empty(),
                        ..t
                    },
                    told.push(EvV::TurnComplete { items: said.skip(base), ms, provider }),
                    TurnAct::Over,
                )
            } else {
                next_call(TurnV { history: said, queue: r.tool_calls, ..t }, told, cancelled)
            }
        },
        TurnInputV::Output(o) => with_output(t, capped(o), true, cancelled),
        TurnInputV::NoOutput(e) => with_output(t, e, false, cancelled),
    }
}

impl Turn {
    /// A turn begins with the healed history.
    pub fn start(history: Vec<Item>) -> (r: Turn)
        ensures
            r@.history == healed(items_view(history@)),
            r@.base_len == healed(items_view(history@)).len(),
            r@.current is None,
            r@.queue == Seq::<ToolCallV>::empty(),
    {
        let mut h = history;
        heal_history(&mut h);
        let base_len: usize = h.len();
        let queue: Vec<ToolCall> = Vec::new();
        assert(calls_view(queue@) =~= Seq::empty());
        assert(items_view(h@).len() == h@.len());
        Turn { history: h, base_len, current: None, queue }
    }

    /// Hands out the items of this turn and drops what waits.
    fn take_items(&mut self) -> (r: Vec<Item>)
        requires
            old(self)@.base_len <= old(self)@.history.len(),
        ensures
            items_view(r@) == old(self)@.history.skip(old(self)@.base_len as int),
            final(self)@ == (TurnV {
                history: old(self)@.history.take(old(self)@.base_len as int),
                current: None,
                queue: Seq::empty(),
                ..old(self)@
            }),
    {
        let ghost before = self.history@;
        assert(items_view(before).len() == before.len());
        let items = self.history.split_off(self.base_len);
        self.current = None;
        self.queue = Vec::new();
        proof {
            let n = self.base_len as int;
            assert(items_view(items@) =~= items_view(before).skip(n));
            assert(items_view(self.history@) =~= items_view(before).take(n));
            assert(calls_view(self.queue@) =~= Seq::empty());
        }
        items
    }

    fn push_item(&mut self, i: Item)
        ensures
            final(self)@ == (TurnV { history: old(self)@.history.push(i@), ..old(self)@ }),
    {
        proof {
            lemma_items_push(self.history@, i);
        }
        self.history.push(i);
    }

    fn abort(&mut self, evs: Vec<Ev>) -> (r: (Vec<Ev>, TurnAct))
        requires
            old(self)@.base_len <= old(self)@.history.len(),
        ensures
            (final(self)@, evs_view(r.0@), r.1) == abort_turn(old(self)@, evs_view(evs@)),
    {
        let mut evs = evs;
        self.push_item(Item::User { text: TURN_ABORTED_MARKER.to_owned() });
        let items = self.take_items();
        let e = Ev::TurnAborted { items };
        proof {
            lemma_evs_push(evs@, e);
        }
        evs.push(e);
        (evs, TurnAct::Over)
    }

    fn advance(&mut self, evs: Vec<Ev>, cancelled: bool) -> (r: (Vec<Ev>, TurnAct))
        requires
            old(self)@.base_len <= old(self)@.history.len(),
        ensures
            (final(self)@, evs_view(r.0@), r.1) == next_call(
                old(self)@,
                evs_view(evs@),
                cancelled,
            ),
    {
        let ghost start = self@;
        assert(calls_view(self.queue@).len() == self.queue@.len());
        if self.queue.len() == 0 {
            if cancelled {
                return self.abort(evs);
            }
            self.current = None;
            return (evs, TurnAct::Ask);
        }
        let ghost waiting = self.queue@;
        let call = self.queue.remove(0);
        proof {
            assert(calls_view(self.queue@) =~= calls_view(waiting).drop_first());
            assert(call@ == calls_view(waiting)[0]);
        }
        let ev = Ev::ToolBegin {
            call_id: call.id.clone(),
            name: call.name.clone(),
            args: call.arguments.copy(),
        };
        self.push_item(
            Item::ToolCall {
                call_id: call.id.clone(),
                name: call.name.clone(),
                args: call.arguments.copy(),
            },
        );
        self.current = Some(call);
        if cancelled {
            return self.abort(evs);
        }
        let mut evs = evs;
        proof {
            lemma_evs_push(evs@, ev);
        }
        evs.push(ev);
        (evs, TurnAct::Run)
    }

    fn answer(&mut self, output: String, ok: bool, cancelled: bool) -> (r: (Vec<Ev>, TurnAct))
        requires
            old(self)@.base_len <= old(self)@.history.len(),
        ensures
            (final(self)@, evs_view(r.0@), r.1) == with_output(
                old(self)@,
                output@,
                ok,
                cancelled,
            ),
    {
        let mut evs: Vec<Ev> = Vec::new();
        assert(evs_view(evs@) =~= Seq::empty());
        match self.current.take() {
            None => (evs, TurnAct::Over),
            Some(c) => {
                let ev = Ev::ToolEnd { call_id: c.id.clone(), output: output.clone(), ok };
                self.push_item(Item::ToolOutput { call_id: c.id, output, is_error: !ok });
                proof {
                    lemma_evs_push(evs@, ev);
                    assert(Seq::<EvV>::empty().push(ev@) =~= seq![ev@]);
                }
                evs.push(ev);
                self.advance(evs, cancelled)
            },
        }
    }

    /// Takes in what came back, with the state of the cancel flag, and says what to do next.
    pub fn step(&mut self, input: TurnInput, cancelled: bool, ms: u64, provider: &str) -> (r: (
        Vec<Ev>,
        TurnAct,
    ))
        requires
            old(self)@.base_len <= old(self)@.history.len(),
        ensures
            (final(self)@, evs_view(r.0@), r.1) == turn_step(
                old(self)@,
                input@,
                cancelled,
                ms,
                provider@,
            ),
    {
        let mut evs: Vec<Ev> = Vec::new();
        assert(evs_view(evs@) =~= Seq::empty());
        match input {
            TurnInput::NoReply(error) => {
                if cancelled {
                    return self.abort(evs);
                }
                let items = self.take_items();
                let e = Ev::Failed { error, items };
                proof {
                    lemma_evs_push(evs@, e);
                    assert(Seq::<EvV>::empty().push(e@) =~= seq![e@]);
                }
                evs.push(e);
                (evs, TurnAct::Over)
            },
            TurnInput::Reply(resp) => {
                if !resp.text.as_str().is_empty() {
                    self.push_item(Item::Assistant { text: resp.text.clone() });
                    let e = Ev::AssistantDone { text: resp.text };
                    proof {
                        lemma_evs_push(evs@, e);
                        assert(Seq::<EvV>::empty().push(e@) =~= seq![e@]);
                    }
                    evs.push(e);
                }
                assert(calls_view(resp.tool_calls@).len() == resp.tool_calls@.len());
                if resp.tool_calls.len() == 0 {
                    let items = self.take_items();
                    let e = Ev::TurnComplete { items, ms, provider: provider.to_owned() };
                    proof {
                        lemma_evs_push(evs@, e);
                    }
                    evs.push(e);
                    return (evs, TurnAct::Over);
                }
                self.queue = resp.tool_calls;
                self.advance(evs, cancelled)
            },
            TurnInput::Output(o) => {
                let kept = truncate_output(o.as_str());
                self.answer(kept, true, cancelled)
            },
            TurnInput::NoOutput(e) => self.answer(e, false, cancelled),
        }
    }
}

/// What holds of a turn between its steps: the history is at least as long as it was at the
/// start, and the only calls without an output have the id of the one that is being run.
pub open spec fn turn_inv(t: TurnV) -> bool {
    &&& t.base_len <= t.history.len()
    &&& forall|j: int|
        0 <= j < t.history.len() && dangling(#[trigger] t.history[j], t.history) ==> (
        t.current matches Some(c) && t.history[j]->ToolCall_call_id == c.id)
}

proof fn lemma_push_item(t: TurnV, i: ItemV)
    requires
        turn_inv(t),
    ensures
        i matches ItemV::ToolCall { call_id, .. } ==> forall|j: int|
            0 <= j <= t.history.len() && dangling(
                #[trigger] t.history.push(i)[j],
                t.history.push(i),
            ) ==> t.history.push(i)[j]->ToolCall_call_id == call_id || (t.current matches Some(c)
                && t.history.push(i)[j]->ToolCall_call_id == c.id),
        !(i is ToolCall) ==> turn_inv(TurnV { history: t.history.push(i), ..t }),
        i matches ItemV::ToolOutput { call_id, .. } ==> forall|j: int|
            0 <= j <= t.history.len() && dangling(
                #[trigger] t.history.push(i)[j],
                t.history.push(i),
            ) ==> t.history.push(i)[j]->ToolCall_call_id != call_id,
{
    let h = t.history;
    let g = h.push(i);
    assert forall|id: Seq<char>| answered(h, id) implies answered(g, id) by {
        let k = choose|k: int| 0 <= k < h.len() && is_output_of(#[trigger] h[k], id);
        assert(is_output_of(g[k], id));
    }
    assert forall|j: int| 0 <= j < h.len() && dangling(#[trigger] g[j], g) implies dangling(
        h[j],
        h,
    ) by {
        assert(g[j] == h[j]);
    }
    if i is ToolOutput {
        assert(is_output_of(g[h.len() as int], i->ToolOutput_call_id));
    }
}

/// A turn starts with every call answered.
pub proof fn law_turn_starts_answered(h: Seq<ItemV>)
    ensures
        turn_inv(
            TurnV {
                history: healed(h),
                base_len: healed(h).len(),
                current: None,
                queue: Seq::empty(),
            },
        ),
{
    law_healed_history_is_answered(h);
}

/// No step changes what stood in the history when the turn began, and whenever the model is asked
/// every call in the history has its output.
pub proof fn law_turn_step_keeps_history_answered(
    t: TurnV,
    input: TurnInputV,
    cancelled: bool,
    ms: u64,
    provider: Seq<char>,
)
    requires
        turn_inv(t),
        input is Reply || input is NoReply ==> t.current is None,
        input is Output || input is NoOutput ==> t.current is Some,
    ensures
        ({
            let (u, evs, act) = turn_step(t, input, cancelled, ms, provider);
            &&& u.base_len == t.base_len
            &&& u.history.take(t.base_len as int) == t.history.take(t.base_len as int)
            &&& act != TurnAct::Over ==> turn_inv(u)
            &&& act == TurnAct::Ask ==> u.current is None && forall|j: int|
                0 <= j < u.history.len() ==> !dangling(#[trigger] u.history[j], u.history)
            &&& act == TurnAct::Run ==> u.current is Some
        }),
{
    let (u, evs, act) = turn_step(t, input, cancelled, ms, provider);
    match input {
        TurnInputV::NoReply(_) => {
            lemma_abort_keeps(t, Seq::empty());
        },
        TurnInputV::Reply(r) => {
            let said = if r.text.len() > 0 {
                t.history.push(ItemV::Assistant { text: r.text })
            } else {
                t.history
            };
            if r.text.len() > 0 {
                lemma_push_item(t, ItemV::Assistant { text: r.text });
            }
            assert(said.take(t.base_len as int) =~= t.history.take(t.base_len as int));
            let told = if r.text.len() > 0 {
                seq![EvV::AssistantDone { text: r.text }]
            } else {
                Seq::empty()
            };
            if r.tool_calls.len() > 0 {
                lemma_next_keeps(
                    TurnV { history: said, queue: r.tool_calls, ..t },
                    told,
                    cancelled,
                );
            }
        },
        TurnInputV::Output(o) => {
            lemma_output_keeps(t, capped(o), true, cancelled);
        },
        TurnInputV::NoOutput(e) => {
            lemma_output_keeps(t, e, false, cancelled);
        },
    }
}

proof fn lemma_abort_keeps(t: TurnV, evs: Seq<EvV>)
    requires
        turn_inv(t),
    ensures
        ({
            let (u, out, act) = abort_turn(t, evs);
            u.base_len == t.base_len && u.history.take(t.base_len as int) == t.history.take(
                t.base_len as int,
            )
        }),
{
    let (u, out, act) = abort_turn(t, evs);
    assert(u.history.take(t.base_len as int) =~= t.history.take(t.base_len as int));
}

proof fn lemma_next_keeps(t: TurnV, evs: Seq<EvV>, cancelled: bool)
    requires
        turn_inv(t),
        t.current is None,
    ensures
        ({
            let (u, out, act) = next_call(t, evs, cancelled);
            &&& u.base_len == t.base_len
            &&& u.history.take(t.base_len as int) == t.history.take(t.base_len as int)
            &&& act != TurnAct::Over ==> turn_inv(u)
            &&& act == TurnAct::Ask ==> u.current is None && forall|j: int|
                0 <= j < u.history.len() ==> !dangling(#[trigger] u.history[j], u.history)
            &&& act == TurnAct::Run ==> u.current is Some
        }),
{
    lemma_abort_keeps(t, evs);
    if t.queue.len() > 0 {
        let c = t.queue[0];
        let begun = TurnV {
            history: t.history.push(call_item(c)),
            current: Some(c),
            queue: t.queue.drop_first(),
            ..t
        };
        lemma_push_item(t, call_item(c));
        assert(turn_inv(begun));
        lemma_abort_keeps(begun, evs);
        assert(begun.history.take(t.base_len as int) =~= t.history.take(t.base_len as int));
    }
}

proof fn lemma_output_keeps(t: TurnV, output: Seq<char>, ok: bool, cancelled: bool)
    requires
        turn_inv(t),
        t.current is Some,
    ensures
        ({
            let (u, out, act) = with_output(t, output, ok, cancelled);
            &&& u.base_len == t.base_len
            &&& u.history.take(t.base_len as int) == t.history.take(t.base_len as int)
            &&& act != TurnAct::Over ==> turn_inv(u)
            &&& act == TurnAct::Ask ==> u.current is None && forall|j: int|
                0 <= j < u.history.len() ==> !dangling(#[trigger] u.history[j], u.history)
            &&& act == TurnAct::Run ==> u.current is Some
        }),
{
    let c = t.current->0;
    let item = ItemV::ToolOutput { call_id: c.id, output, is_error: !ok };
    lemma_push_item(t, item);
    let next = TurnV { history: t.history.push(item), current: None, ..t };
    assert(turn_inv(next));
    lemma_next_keeps(next, seq![EvV::ToolEnd { call_id: c.id, output, ok }], cancelled);
    assert(next.history.take(t.base_len as int) =~= t.history.take(t.base_len as int));
}

} // verus!
