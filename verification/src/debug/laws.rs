//! What is printed of a conversation.

use crate::agent::ItemV;
use crate::debug::audit::{findings, is_call, issues_in, marks_abort, read_items, unread_lines};
use crate::debug::reports::is_report_marker;
use crate::debug::{body_lines, item_lines, name_of_call, report_lines, transcript};
use crate::session::header_in;
use crate::strs::{dec, lines_of};
use crate::text::{byte_len, cut_marked};
use vstd::prelude::*;

verus! {

/// The whole text of an item is printed line by line; a preview has its first eight lines, each
/// cut, and tells how many more there are where there are more.
pub proof fn law_text_is_printed_line_by_line(text: Seq<char>, i: int)
    requires
        0 <= i < lines_of(text).len(),
    ensures
        ({
            let lines = lines_of(text);
            let n = lines.len();
            &&& body_lines(text, true).len() == n
            &&& body_lines(text, true)[i] == "      "@ + lines[i]
            &&& n <= 8 ==> body_lines(text, false).len() == n
            &&& n > 8 ==> body_lines(text, false).len() == 9 && body_lines(text, false)[8]
                == "      ... (+"@ + dec((n - 8) as nat) + " more lines; --full to show)"@
            &&& i < 8 ==> body_lines(text, false)[i] == "      "@ + cut_marked(lines[i], 160, "..."@)
        }),
{
}

/// An output goes by the name of the last call with its id, and by a question mark where there is
/// none.
pub proof fn law_output_goes_by_its_last_call(items: Seq<ItemV>, id: Seq<char>)
    ensures
        (forall|i: int| 0 <= i < items.len() ==> !is_call(#[trigger] items[i], id)) ==> name_of_call(
            items,
            id,
        ) == "?"@,
        forall|k: int|
            0 <= k < items.len() && is_call(#[trigger] items[k], id) && (forall|i: int|
                k < i < items.len() ==> !is_call(#[trigger] items[i], id)) ==> name_of_call(
                items,
                id,
            ) == items[k]->ToolCall_name,
    decreases items.len(),
{
    if items.len() > 0 {
        let rest = items.drop_last();
        law_output_goes_by_its_last_call(rest, id);
        assert(forall|i: int| 0 <= i < rest.len() ==> #[trigger] rest[i] == items[i]);
        assert(forall|i: int| 0 <= i < rest.len() ==> rest[i] == #[trigger] items[i]);
        assert(items[items.len() - 1] == items.last());
        assert forall|k: int|
            0 <= k < items.len() && is_call(#[trigger] items[k], id) && (forall|i: int|
                k < i < items.len() ==> !is_call(#[trigger] items[i], id)) implies name_of_call(
            items,
            id,
        ) == items[k]->ToolCall_name by {
            if k < rest.len() {
                assert(is_call(rest[k], id));
                assert(!is_call(items[items.len() - 1], id));
                assert forall|i: int| k < i < rest.len() implies !is_call(#[trigger] rest[i], id) by {
                    assert(!is_call(items[i], id));
                }
            }
        }
    }
}

/// Every item has a heading with its number, counted from one, and its kind; what was said, asked
/// for or answered stands below it.
pub proof fn law_items_have_their_heading(items: Seq<ItemV>, i: int, full: bool)
    requires
        0 <= i < items.len(),
    ensures
        ({
            let lines = item_lines(items, i, full);
            let head = "  ["@ + dec((i + 1) as nat) + "] "@;
            &&& lines.len() > 0
            &&& items[i] matches ItemV::Assistant { text } ==> lines[0] == head + "assistant"@
                && lines.drop_first() == body_lines(text, full)
            &&& items[i] matches ItemV::User { text } ==> {
                &&& marks_abort(text) ==> lines.len() == 1
                &&& !marks_abort(text) && is_report_marker(text) ==> lines[0] == head
                    + "BUG REPORT (user flagged the item above)"@ && lines.drop_first()
                    == body_lines(text, full)
                &&& !marks_abort(text) && !is_report_marker(text) ==> lines[0] == head + "user"@
                    && lines.drop_first() == body_lines(text, full)
            }
            &&& items[i] matches ItemV::ToolCall { call_id, name, args } ==> lines[0] == head
                + "tool_call "@ + name + " ("@ + call_id + ")"@
            &&& items[i] matches ItemV::ToolOutput { call_id, output, is_error } ==> {
                &&& is_error ==> lines[0] == head + "tool_output "@ + name_of_call(items, call_id)
                    + " ("@ + call_id + ") "@ + "ERROR"@ + " - "@ + dec(byte_len(output))
                    + " bytes"@
                &&& !is_error ==> lines[0] == head + "tool_output "@ + name_of_call(items, call_id)
                    + " ("@ + call_id + ") "@ + "ok"@ + " - "@ + dec(byte_len(output)) + " bytes"@
                &&& lines.drop_first() == body_lines(output, full)
            }
        }),
{
    let lines = item_lines(items, i, full);
    match items[i] {
        ItemV::User { text } => {
            if !marks_abort(text) {
                assert(lines.drop_first() =~= body_lines(text, full));
            }
        },
        ItemV::Assistant { text } => {
            assert(lines.drop_first() =~= body_lines(text, full));
        },
        ItemV::ToolCall { .. } => {},
        ItemV::ToolOutput { output, .. } => {
            assert(lines.drop_first() =~= body_lines(output, full));
        },
    }
}

/// The lines of every item are in the transcript, as a whole.
pub proof fn law_every_item_is_printed(items: Seq<ItemV>, n: int, i: int, full: bool)
    requires
        0 <= i < n,
    ensures
        exists|k: int|
            0 <= k && k + item_lines(items, i, full).len() <= transcript(items, n, full).len()
                && #[trigger] transcript(items, n, full).subrange(
                k,
                k + item_lines(items, i, full).len(),
            ) == item_lines(items, i, full),
    decreases n,
{
    let all = transcript(items, n, full);
    let ahead = transcript(items, n - 1, full);
    let lines = item_lines(items, i, full);
    if i == n - 1 {
        let k = ahead.len() as int;
        assert(all.subrange(k, k + lines.len()) =~= lines);
    } else {
        law_every_item_is_printed(items, n - 1, i, full);
        let k = choose|k: int|
            0 <= k && k + lines.len() <= ahead.len() && #[trigger] ahead.subrange(
                k,
                k + lines.len(),
            ) == lines;
        assert(all.subrange(k, k + lines.len()) =~= ahead.subrange(k, k + lines.len()));
    }
}

/// A report names its conversation, holds every item, and ends in the numbers of issues and of
/// notes. It is there just where the first line is a header.
pub proof fn law_report_holds_the_conversation(path: Seq<char>, raw: Seq<char>, full: bool)
    requires
        lines_of(raw).len() > 0,
    ensures
        report_lines(path, raw, full) is Some <==> header_in(lines_of(raw)[0]) is Some,
        report_lines(path, raw, full) matches Some(v) ==> {
            let h = header_in(lines_of(raw)[0])->0;
            let rest = lines_of(raw).drop_first();
            let items = read_items(rest);
            let told = findings(items, unread_lines(rest));
            &&& v[0] == "session "@ + h.id
            &&& v[2] == "  workspace: "@ + h.data_root
            &&& v[3] == "  file:      "@ + path + " ("@ + dec(byte_len(raw)) + " bytes, "@ + dec(
                items.len(),
            ) + " items)"@
            &&& v.subrange(6, 6int + transcript(items, items.len() as int, full).len()) == transcript(
                items,
                items.len() as int,
                full,
            )
            &&& v.last() == "  "@ + dec(issues_in(told)) + " issue(s), "@ + dec(
                (told.len() - issues_in(told)) as nat,
            ) + " note(s)"@
        },
{
    match report_lines(path, raw, full) {
        Some(v) => {
            let items = read_items(lines_of(raw).drop_first());
            let t = transcript(items, items.len() as int, full);
            assert(v.subrange(6, 6int + t.len()) =~= t);
        },
        None => {},
    }
}

} // verus!
