//! Looking into saved conversations: the transcript as it is printed, and what was found in it.

pub mod laws;
pub mod audit;
pub mod listing;
pub mod reports;

use crate::agent::{items_view, Item, ItemV};
use crate::dates::{second_shown, show_second};
use crate::debug::audit::{
    audit, count_issues, findings, is_aborted_marker, is_call, issues_in, marks_abort, parse_raw,
    read_items, unread_lines,
};
use crate::debug::reports::{is_bug_report_marker, is_report_marker};
use crate::json::{json_normal, json_printed};
use crate::session::header_in;
use crate::strs::{
    cat2, cat3, cat4, cat5, cat6, cat7, dec, decimal_len, decimal_wide, end_lines, indented,
    lines, lines_of, push_indented, push_text, same, text_lines, views,
};
use crate::text::{byte_count, byte_len, cut_marked, truncate_marked};
use vstd::prelude::*;

verus! {

/// How many lines of an item are shown.
pub const PREVIEW_LINES: usize = 8;

/// How many bytes of a line are shown.
pub const PREVIEW_COLS: usize = 160;

pub open spec fn cut_lines(lines: Seq<Seq<char>>) -> Seq<Seq<char>> {
    lines.map_values(|l: Seq<char>| cut_marked(l, PREVIEW_COLS as int, "..."@))
}

/// The text of an item below its heading: all of it, or its first lines, cut.
pub open spec fn body_lines(text: Seq<char>, full: bool) -> Seq<Seq<char>> {
    let all = lines_of(text);
    if full {
        indented(all, "      "@)
    } else if all.len() <= PREVIEW_LINES {
        indented(cut_lines(all), "      "@)
    } else {
        indented(cut_lines(all.take(PREVIEW_LINES as int)), "      "@).push(
            "      ... (+"@ + dec((all.len() - PREVIEW_LINES) as nat)
                + " more lines; --full to show)"@,
        )
    }
}

fn write_body(out: &mut Vec<String>, text: &str, full: bool)
    ensures
        views(final(out)@) == views(old(out)@) + body_lines(text@, full),
{
    let ghost start = views(out@);
    let all = lines(text);
    let ghost parts = lines_of(text@);
    if full {
        push_indented(out, &all, "      ");
        return;
    }
    let shown: usize = if all.len() <= PREVIEW_LINES {
        all.len()
    } else {
        PREVIEW_LINES
    };
    let mut cut: Vec<String> = Vec::new();
    let mut i: usize = 0;
    assert(views(all@).len() == all@.len());
    assert(views(cut@) =~= cut_lines(parts.take(0)));
    while i < shown
        invariant
            i <= shown <= all@.len(),
            parts == views(all@),
            views(cut@) == cut_lines(parts.take(i as int)),
        decreases shown - i,
    {
        assert(parts[i as int] == all@[i as int]@);
        push_text(&mut cut, truncate_marked(all[i].as_str(), PREVIEW_COLS, "..."));
        assert(views(cut@) =~= cut_lines(parts.take(i + 1)));
        i += 1;
    }
    push_indented(out, &cut, "      ");
    if all.len() > PREVIEW_LINES {
        push_text(
            out,
            cat3(
                "      ... (+",
                decimal_len(all.len() - PREVIEW_LINES).as_str(),
                " more lines; --full to show)",
            ),
        );
        assert(views(out@) =~= start + body_lines(text@, full));
    } else {
        assert(parts.take(i as int) =~= parts);
    }
}

/// The name of the last call with this id, if there is one.
pub open spec fn name_of_call(items: Seq<ItemV>, id: Seq<char>) -> Seq<char>
    decreases items.len(),
{
    if items.len() == 0 {
        "?"@
    } else if is_call(items.last(), id) {
        items.last()->ToolCall_name
    } else {
        name_of_call(items.drop_last(), id)
    }
}

fn call_name(items: &Vec<Item>, id: &str) -> (r: String)
    ensures
        r@ == name_of_call(items_view(items@), id@),
{
    let ghost all = items_view(items@);
    let mut k: usize = items.len();
    assert(all.take(k as int) =~= all);
    while k > 0
        invariant
            k <= items@.len(),
            all == items_view(items@),
            name_of_call(all, id@) == name_of_call(all.take(k as int), id@),
        decreases k,
    {
        assert(all.take(k as int).drop_last() =~= all.take(k - 1));
        assert(all[k - 1] == items@[k - 1]@);
        match &items[k - 1] {
            Item::ToolCall { call_id, name, .. } => {
                if same(call_id.as_str(), id) {
                    return name.clone();
                }
            },
            _ => {},
        }
        k -= 1;
    }
    "?".to_owned()
}

/// The heading of the item with the number `n`, as far as its number.
pub open spec fn item_number(n: nat) -> Seq<char> {
    "  ["@ + dec(n) + "] "@
}

/// The lines of one item: its heading and its text.
pub open spec fn item_lines(items: Seq<ItemV>, i: int, full: bool) -> Seq<Seq<char>> {
    let head = item_number((i + 1) as nat);
    match items[i] {
        ItemV::User { text } => if marks_abort(text) {
            seq![head + "turn_aborted (user interrupt marker)"@]
        } else if is_report_marker(text) {
            seq![head + "BUG REPORT (user flagged the item above)"@] + body_lines(text, full)
        } else {
            seq![head + "user"@] + body_lines(text, full)
        },
        ItemV::Assistant { text } => seq![head + "assistant"@] + body_lines(text, full),
        ItemV::ToolCall { call_id, name, args } => seq![
            head + "tool_call "@ + name + " ("@ + call_id + ")"@,
        ] + body_lines(json_printed(json_normal(args)), full),
        ItemV::ToolOutput { call_id, output, is_error } => seq![
            head + "tool_output "@ + name_of_call(items, call_id) + " ("@ + call_id + ") "@ + (
            if is_error {
                "ERROR"@
            } else {
                "ok"@
            }) + " - "@ + dec(byte_len(output)) + " bytes"@,
        ] + body_lines(output, full),
    }
}

pub open spec fn transcript(items: Seq<ItemV>, n: int, full: bool) -> Seq<Seq<char>>
    decreases n,
{
    if n <= 0 {
        Seq::empty()
    } else {
        transcript(items, n - 1, full) + item_lines(items, n - 1, full)
    }
}

fn push_item(out: &mut Vec<String>, items: &Vec<Item>, i: usize, full: bool)
    requires
        i < items@.len(),
    ensures
        views(final(out)@) == views(old(out)@) + item_lines(items_view(items@), i as int, full),
{
    let ghost start = views(out@);
    let ghost all = items_view(items@);
    assert(all[i as int] == items@[i as int]@);
    let total: usize = items.len();
    let head = cat3("  [", decimal_len(i + 1).as_str(), "] ");
    match &items[i] {
        Item::User { text } => {
            if is_aborted_marker(text.as_str()) {
                push_text(out, cat2(head.as_str(), "turn_aborted (user interrupt marker)"));
            } else if is_bug_report_marker(text.as_str()) {
                push_text(out, cat2(head.as_str(), "BUG REPORT (user flagged the item above)"));
                write_body(out, text.as_str(), full);
            } else {
                push_text(out, cat2(head.as_str(), "user"));
                write_body(out, text.as_str(), full);
            }
        },
        Item::Assistant { text } => {
            push_text(out, cat2(head.as_str(), "assistant"));
            write_body(out, text.as_str(), full);
        },
        Item::ToolCall { call_id, name, args } => {
            push_text(
                out,
                cat6(head.as_str(), "tool_call ", name.as_str(), " (", call_id.as_str(), ")"),
            );
            write_body(out, args.to_text().as_str(), full);
        },
        Item::ToolOutput { call_id, output, is_error } => {
            let status = if *is_error {
                "ERROR"
            } else {
                "ok"
            };
            let name = call_name(items, call_id.as_str());
            let first = cat7(
                head.as_str(),
                "tool_output ",
                name.as_str(),
                " (",
                call_id.as_str(),
                ") ",
                status,
            );
            push_text(
                out,
                cat4(
                    first.as_str(),
                    " - ",
                    decimal_wide(byte_count(output.as_str())).as_str(),
                    " bytes",
                ),
            );
            write_body(out, output.as_str(), full);
        },
    }
    assert(views(out@) =~= start + item_lines(all, i as int, full));
}

/// The lines of the report on one conversation.
pub open spec fn report_lines(path: Seq<char>, raw: Seq<char>, full: bool) -> Option<
    Seq<Seq<char>>,
> {
    let all = lines_of(raw);
    if all.len() == 0 {
        None
    } else {
        match header_in(all[0]) {
            Some(h) => {
                let items = read_items(all.drop_first());
                let entries = findings(items, unread_lines(all.drop_first()));
                Some(
                    seq![
                        "session "@ + h.id,
                        "  started:   "@ + second_shown(h.started_at) + " UTC"@,
                        "  workspace: "@ + h.data_root,
                        "  file:      "@ + path + " ("@ + dec(byte_len(raw)) + " bytes, "@ + dec(
                            items.len(),
                        ) + " items)"@,
                        Seq::empty(),
                        "transcript"@,
                    ] + transcript(items, items.len() as int, full) + seq![
                        Seq::empty(),
                        "audit"@,
                    ] + indented(entries, "  "@) + seq![
                        "  "@ + dec(issues_in(entries)) + " issue(s), "@ + dec(
                            (entries.len() - issues_in(entries)) as nat,
                        ) + " note(s)"@,
                    ],
                )
            },
            None => None,
        }
    }
}

/// The report on one conversation: its header, its items and what was found.
pub fn report(path: &str, raw: &str, full: bool) -> (r: Result<String, &'static str>)
    ensures
        match r {
            Ok(t) => report_lines(path@, raw@, full) matches Some(v) && t@ == text_lines(v),
            Err(m) => report_lines(path@, raw@, full) is None && m@
                == "first line is not a session header"@,
        },
{
    let (meta, items, skipped) = match parse_raw(raw) {
        Ok(p) => p,
        Err(m) => {
            return Err(m);
        },
    };
    let ghost all = items_view(items@);
    assert(all.len() == items@.len());
    let mut out: Vec<String> = Vec::new();
    push_text(&mut out, cat2("session ", meta.id.as_str()));
    push_text(
        &mut out,
        cat3("  started:   ", show_second(meta.started_at).as_str(), " UTC"),
    );
    push_text(&mut out, cat2("  workspace: ", meta.data_root.as_str()));
    push_text(
        &mut out,
        cat7(
            "  file:      ",
            path,
            " (",
            decimal_wide(byte_count(raw)).as_str(),
            " bytes, ",
            decimal_len(items.len()).as_str(),
            " items)",
        ),
    );
    push_text(&mut out, String::new());
    push_text(&mut out, "transcript".to_owned());
    let ghost head = views(out@);
    let mut i: usize = 0;
    assert(head + transcript(all, 0, full) =~= head);
    while i < items.len()
        invariant
            i <= items@.len(),
            all == items_view(items@),
            views(out@) == head + transcript(all, i as int, full),
        decreases items.len() - i,
    {
        push_item(&mut out, &items, i, full);
        assert(views(out@) =~= head + transcript(all, i + 1, full));
        i += 1;
    }
    let ghost body = views(out@);
    push_text(&mut out, String::new());
    push_text(&mut out, "audit".to_owned());
    let entries = audit(&items, &skipped);
    push_indented(&mut out, &entries, "  ");
    let issues: usize = count_issues(&entries);
    push_text(
        &mut out,
        cat5(
            "  ",
            decimal_len(issues).as_str(),
            " issue(s), ",
            decimal_len(entries.len() - issues).as_str(),
            " note(s)",
        ),
    );
    proof {
        let e = views(entries@);
        assert(e.len() == entries@.len());
        assert(views(out@) =~= report_lines(path@, raw@, full)->0);
    }
    Ok(end_lines(&out))
}

} // verus!
