//! What must hold of a saved conversation: every call has an output, every request an answer, and
//! every line reads.

use crate::agent::{items_view, lemma_items_push, Item, ItemV};
use crate::debug::reports::{is_bug_report_marker, is_report_marker};
use crate::session::{
    header_in, item_in, parse_header_line, parse_item_line, SessionMeta, SessionMetaV,
};
use crate::strs::{
    cat3, cat4, cat5, dec, decimal_len, join, joined, lines, lines_of, occurs_at, push_text, same,
    starts_with, trim, trimmed, views,
};
use crate::text::{cut_marked, truncate_marked};
use vstd::prelude::*;

pub mod laws;

verus! {

/// What was found in one saved conversation.
#[derive(Debug)]
pub struct SessionAudit {
    pub meta: SessionMeta,
    pub item_count: usize,
    /// One line for each finding: `issue: ` where something is broken, `note: ` where it may be.
    pub entries: Vec<String>,
}

pub open spec fn is_issue(line: Seq<char>) -> bool {
    occurs_at(line, "issue:"@, 0)
}

/// How many of the lines are issues.
pub open spec fn issues_in(entries: Seq<Seq<char>>) -> nat
    decreases entries.len(),
{
    if entries.len() == 0 {
        0
    } else {
        issues_in(entries.drop_last()) + if is_issue(entries.last()) {
            1nat
        } else {
            0
        }
    }
}

pub(crate) fn count_issues(entries: &Vec<String>) -> (r: usize)
    ensures
        r == issues_in(views(entries@)),
        r <= entries@.len(),
{
    let ghost all = views(entries@);
    let mut n: usize = 0;
    let mut i: usize = 0;
    assert(all.take(0) =~= Seq::empty());
    while i < entries.len()
        invariant
            i <= entries@.len(),
            all == views(entries@),
            n == issues_in(all.take(i as int)),
            n <= i,
        decreases entries.len() - i,
    {
        assert(all.take(i + 1).drop_last() =~= all.take(i as int));
        assert(all[i as int] == entries@[i as int]@);
        if starts_with(entries[i].as_str(), "issue:") {
            n += 1;
        }
        i += 1;
    }
    assert(all.take(i as int) =~= all);
    n
}

impl SessionAudit {
    /// How many of the findings are issues.
    pub fn issue_count(&self) -> (r: usize)
        ensures
            r == issues_in(views(self.entries@)),
    {
        count_issues(&self.entries)
    }
}

// Lines

pub open spec fn blank(line: Seq<char>) -> bool {
    trimmed(line).len() == 0
}

/// The items of the lines; a line that holds none is passed over.
pub open spec fn read_items(lines: Seq<Seq<char>>) -> Seq<ItemV>
    decreases lines.len(),
{
    if lines.len() == 0 {
        Seq::empty()
    } else {
        let before = read_items(lines.drop_last());
        match item_in(lines.last()) {
            Some(i) if !blank(lines.last()) => before.push(i),
            _ => before,
        }
    }
}

/// The numbers of the lines that hold something but no item, counted from 2 on.
pub open spec fn unread_lines(lines: Seq<Seq<char>>) -> Seq<nat>
    decreases lines.len(),
{
    if lines.len() == 0 {
        Seq::empty()
    } else {
        let before = unread_lines(lines.drop_last());
        if blank(lines.last()) || item_in(lines.last()) is Some {
            before
        } else {
            before.push(lines.len() + 1)
        }
    }
}

pub open spec fn numbers(v: Seq<u64>) -> Seq<nat> {
    v.map_values(|n: u64| n as nat)
}

/// Reads a saved conversation: its header, its items, and the numbers of the lines that do not
/// read.
pub fn parse_raw(raw: &str) -> (r: Result<(SessionMeta, Vec<Item>, Vec<u64>), &'static str>)
    ensures
        ({
            let all = lines_of(raw@);
            if all.len() == 0 || header_in(all[0]) is None {
                r matches Err(m) && m@ == "first line is not a session header"@
            } else {
                r matches Ok(p) && header_in(all[0]) == Some(p.0@) && items_view(p.1@)
                    == read_items(all.drop_first()) && numbers(p.2@) == unread_lines(
                    all.drop_first(),
                )
            }
        }),
{
    let all = lines(raw);
    let ghost text_lines = lines_of(raw@);
    assert(views(all@).len() == all@.len());
    if all.len() == 0 {
        return Err("first line is not a session header");
    }
    assert(text_lines[0] == all@[0]@);
    let meta = match parse_header_line(all[0].as_str()) {
        Some(m) => m,
        None => {
            return Err("first line is not a session header");
        },
    };
    let ghost rest = text_lines.drop_first();
    let mut items: Vec<Item> = Vec::new();
    let mut skipped: Vec<u64> = Vec::new();
    let mut i: usize = 1;
    assert(items_view(items@) =~= Seq::empty());
    assert(numbers(skipped@) =~= Seq::empty());
    assert(rest.take(0) =~= Seq::empty());
    let total: usize = all.len();
    while i < total
        invariant
            1 <= i <= total,
            total == all@.len(),
            views(all@) == text_lines,
            rest == text_lines.drop_first(),
            items_view(items@) == read_items(rest.take(i - 1)),
            numbers(skipped@) == unread_lines(rest.take(i - 1)),
        decreases total - i,
    {
        assert(rest.take(i as int).drop_last() =~= rest.take(i - 1));
        assert(rest[i - 1] == all@[i as int]@) by {
            assert(text_lines[i as int] == views(all@)[i as int]);
        }
        let shown = trim(all[i].as_str());
        if !shown.as_str().is_empty() {
            match parse_item_line(all[i].as_str()) {
                Some(it) => {
                    proof {
                        lemma_items_push(items@, it);
                    }
                    items.push(it);
                },
                None => {
                    let n: u64 = i as u64 + 1;
                    assert(numbers(skipped@.push(n)) =~= numbers(skipped@).push(n as nat));
                    skipped.push(n);
                },
            }
        }
        i += 1;
    }
    assert(rest.take(i - 1) =~= rest);
    Ok((meta, items, skipped))
}

// Markers

/// Whether a text marks a turn that the user interrupted.
pub open spec fn marks_abort(text: Seq<char>) -> bool {
    occurs_at(text, "<turn_aborted>"@, 0)
}

pub fn is_aborted_marker(text: &str) -> (r: bool)
    ensures
        r == marks_abort(text@),
{
    starts_with(text, "<turn_aborted>")
}

/// Whether a text is a marker, and so no request of the user.
pub fn is_marker(text: &str) -> (r: bool)
    ensures
        r == (marks_abort(text@) || is_report_marker(text@)),
{
    is_aborted_marker(text) || is_bug_report_marker(text)
}

/// Whether an item is a request of the user.
pub open spec fn is_request(i: ItemV) -> bool {
    i matches ItemV::User { text } && !marks_abort(text) && !is_report_marker(text)
}

fn request(i: &Item) -> (r: bool)
    ensures
        r == is_request(i@),
{
    match i {
        Item::User { text } => !is_marker(text.as_str()),
        _ => false,
    }
}

// Calls and outputs

pub open spec fn is_call(i: ItemV, id: Seq<char>) -> bool {
    i matches ItemV::ToolCall { call_id, .. } && call_id == id
}

pub open spec fn is_output(i: ItemV, id: Seq<char>) -> bool {
    i matches ItemV::ToolOutput { call_id, .. } && call_id == id
}

/// Whether one of the items is a call with this id.
pub open spec fn called(items: Seq<ItemV>, id: Seq<char>) -> bool {
    exists|k: int| 0 <= k < items.len() && is_call(#[trigger] items[k], id)
}

/// Whether the last of the items with this id is a call, and so waits for its output.
pub open spec fn waits(items: Seq<ItemV>, id: Seq<char>) -> bool
    decreases items.len(),
{
    if items.len() == 0 {
        false
    } else if is_call(items.last(), id) {
        true
    } else if is_output(items.last(), id) {
        false
    } else {
        waits(items.drop_last(), id)
    }
}

/// Whether an item has this id, as a call or as an output.
pub open spec fn has_id(i: ItemV, id: Seq<char>) -> bool {
    is_call(i, id) || is_output(i, id)
}

/// Whether the item at `k` is a call that none of the items behind it has the id of.
pub open spec fn unanswered(items: Seq<ItemV>, k: int) -> bool {
    items[k] matches ItemV::ToolCall { call_id, .. } && forall|j: int|
        k < j < items.len() ==> !has_id(#[trigger] items[j], call_id)
}

fn call_with(i: &Item, id: &str) -> (r: bool)
    ensures
        r == is_call(i@, id@),
{
    match i {
        Item::ToolCall { call_id, .. } => same(call_id.as_str(), id),
        _ => false,
    }
}

fn output_with(i: &Item, id: &str) -> (r: bool)
    ensures
        r == is_output(i@, id@),
{
    match i {
        Item::ToolOutput { call_id, .. } => same(call_id.as_str(), id),
        _ => false,
    }
}

fn called_before(items: &Vec<Item>, n: usize, id: &str) -> (r: bool)
    requires
        n <= items@.len(),
    ensures
        r == called(items_view(items@).take(n as int), id@),
{
    let ghost all = items_view(items@).take(n as int);
    let mut k: usize = 0;
    while k < n
        invariant
            k <= n <= items@.len(),
            all == items_view(items@).take(n as int),
            forall|j: int| 0 <= j < k ==> !is_call(#[trigger] all[j], id@),
        decreases n - k,
    {
        assert(all[k as int] == items@[k as int]@);
        if call_with(&items[k], id) {
            return true;
        }
        k += 1;
    }
    false
}

fn waits_before(items: &Vec<Item>, n: usize, id: &str) -> (r: bool)
    requires
        n <= items@.len(),
    ensures
        r == waits(items_view(items@).take(n as int), id@),
{
    let ghost all = items_view(items@);
    let mut k: usize = n;
    while k > 0
        invariant
            k <= n <= items@.len(),
            all == items_view(items@),
            waits(all.take(n as int), id@) == waits(all.take(k as int), id@),
        decreases k,
    {
        assert(all.take(k as int).drop_last() =~= all.take(k - 1));
        assert(all[k - 1] == items@[k - 1]@);
        if call_with(&items[k - 1], id) {
            return true;
        }
        if output_with(&items[k - 1], id) {
            return false;
        }
        k -= 1;
    }
    false
}

fn waits_at_end(items: &Vec<Item>, k: usize) -> (r: bool)
    requires
        k < items@.len(),
    ensures
        r == unanswered(items_view(items@), k as int),
{
    let ghost all = items_view(items@);
    assert(all[k as int] == items@[k as int]@);
    let total: usize = items.len();
    match &items[k] {
        Item::ToolCall { call_id, .. } => {
            let mut j: usize = k + 1;
            while j < total
                invariant
                    k < j <= total,
                    total == items@.len(),
                    all == items_view(items@),
                    all[k as int] is ToolCall,
                    all[k as int]->ToolCall_call_id == call_id@,
                    forall|m: int| k < m < j ==> !has_id(#[trigger] all[m], call_id@),
                decreases total - j,
            {
                assert(all[j as int] == items@[j as int]@);
                if call_with(&items[j], call_id.as_str()) || output_with(
                    &items[j],
                    call_id.as_str(),
                ) {
                    assert(has_id(all[j as int], call_id@));
                    return false;
                }
                j += 1;
            }
            true
        },
        _ => false,
    }
}

/// What is said of the calls and outputs among the first `n` items: ids that come twice, and
/// outputs that no call waits for.
pub open spec fn pairing(items: Seq<ItemV>, n: int) -> Seq<Seq<char>>
    decreases n,
{
    if n <= 0 || n > items.len() {
        Seq::empty()
    } else {
        let before = pairing(items, n - 1);
        let seen = items.take(n - 1);
        match items[n - 1] {
            ItemV::ToolCall { call_id, name, .. } => if called(seen, call_id) {
                before.push(
                    "issue: ["@ + dec(n as nat) + "] duplicate call_id '"@ + call_id + "' ("@ + name
                        + ")"@,
                )
            } else {
                before
            },
            ItemV::ToolOutput { call_id, .. } => if waits(seen, call_id) {
                before
            } else {
                before.push(
                    "issue: ["@ + dec(n as nat) + "] tool_output for unknown call_id '"@ + call_id
                        + "'"@,
                )
            },
            _ => before,
        }
    }
}

/// What is said of the first `n` items that are calls without an output.
pub open spec fn dangling_calls(items: Seq<ItemV>, n: int) -> Seq<Seq<char>>
    decreases n,
{
    if n <= 0 || n > items.len() {
        Seq::empty()
    } else {
        let before = dangling_calls(items, n - 1);
        if unanswered(items, n - 1) {
            before.push(
                "issue: ["@ + dec(n as nat) + "] tool_call '"@ + items[n - 1]->ToolCall_call_id
                    + "' never got a tool_output (crash or quit mid-turn)"@,
            )
        } else {
            before
        }
    }
}

/// What is said of requests among the first `n` items that another request follows at once.
pub open spec fn dead_turns(items: Seq<ItemV>, n: int) -> Seq<Seq<char>>
    decreases n,
{
    if n <= 1 || n > items.len() {
        Seq::empty()
    } else {
        let before = dead_turns(items, n - 1);
        if is_request(items[n - 2]) && is_request(items[n - 1]) {
            before.push(
                "issue: ["@ + dec((n - 1) as nat) + "] user item got no response before ["@ + dec(
                    n as nat,
                ) + "] (dead turn)"@,
            )
        } else {
            before
        }
    }
}

/// What is said of a request that is the last item.
pub open spec fn open_request(items: Seq<ItemV>) -> Seq<Seq<char>> {
    if items.len() > 0 && is_request(items.last()) {
        seq![
            "note: session ends on unanswered user item ["@ + dec(items.len())
                + "] (quit or crash before the turn finished)"@,
        ]
    } else {
        Seq::empty()
    }
}

/// What is said of answers among the first `n` items that are blank.
pub open spec fn empty_answers(items: Seq<ItemV>, n: int) -> Seq<Seq<char>>
    decreases n,
{
    if n <= 0 || n > items.len() {
        Seq::empty()
    } else {
        let before = empty_answers(items, n - 1);
        match items[n - 1] {
            ItemV::Assistant { text } => if blank(text) {
                before.push("issue: ["@ + dec(n as nat) + "] assistant item is empty"@)
            } else {
                before
            },
            _ => before,
        }
    }
}

pub open spec fn first_line(s: Seq<char>) -> Seq<char> {
    if lines_of(s).len() == 0 {
        Seq::empty()
    } else {
        lines_of(s)[0]
    }
}

/// The failures of tools among the first `n` items.
pub open spec fn failures(items: Seq<ItemV>, n: int) -> Seq<Seq<char>>
    decreases n,
{
    if n <= 0 || n > items.len() {
        Seq::empty()
    } else {
        let before = failures(items, n - 1);
        match items[n - 1] {
            ItemV::ToolOutput { output, is_error, .. } => if is_error {
                before.push(
                    "["@ + dec(n as nat) + "] "@ + cut_marked(first_line(output), 120, "..."@),
                )
            } else {
                before
            },
            _ => before,
        }
    }
}

/// How many of the first `n` items mark an interrupted turn.
pub open spec fn aborts(items: Seq<ItemV>, n: int) -> nat
    decreases n,
{
    if n <= 0 || n > items.len() {
        0
    } else {
        aborts(items, n - 1) + match items[n - 1] {
            ItemV::User { text } => if marks_abort(text) {
                1nat
            } else {
                0
            },
            _ => 0,
        }
    }
}

pub open spec fn shown_numbers(v: Seq<nat>) -> Seq<Seq<char>> {
    v.map_values(|n: nat| dec(n))
}

pub open spec fn unread_note(skipped: Seq<nat>) -> Seq<Seq<char>> {
    if skipped.len() == 0 {
        Seq::empty()
    } else {
        seq![
            "issue: "@ + dec(skipped.len())
                + " unparseable line(s) skipped on replay (file lines "@ + joined(
                shown_numbers(skipped),
                ", "@,
            ) + ")"@,
        ]
    }
}

pub open spec fn failure_note(all: Seq<Seq<char>>) -> Seq<Seq<char>> {
    if all.len() == 0 {
        Seq::empty()
    } else {
        seq![
            "note: "@ + dec(all.len()) + " tool failure(s) fed back to the model: "@ + joined(
                all,
                "; "@,
            ),
        ]
    }
}

pub open spec fn abort_note(n: nat) -> Seq<Seq<char>> {
    if n == 0 {
        Seq::empty()
    } else {
        seq!["note: "@ + dec(n) + " interrupted turn(s)"@]
    }
}

/// All that is said of a conversation.
pub open spec fn findings(items: Seq<ItemV>, skipped: Seq<nat>) -> Seq<Seq<char>> {
    let n = items.len() as int;
    unread_note(skipped) + pairing(items, n) + dangling_calls(items, n) + dead_turns(items, n)
        + open_request(items) + empty_answers(items, n) + failure_note(failures(items, n))
        + abort_note(aborts(items, n))
}

fn add_unread(out: &mut Vec<String>, skipped: &Vec<u64>)
    ensures
        views(final(out)@) == views(old(out)@) + unread_note(numbers(skipped@)),
{
    let ghost all = shown_numbers(numbers(skipped@));
    let ghost start = views(out@);
    if skipped.len() == 0 {
        assert(start + unread_note(numbers(skipped@)) =~= start);
        return;
    }
    let mut shown: Vec<String> = Vec::new();
    let mut i: usize = 0;
    assert(views(shown@) =~= all.take(0));
    while i < skipped.len()
        invariant
            i <= skipped@.len(),
            all == shown_numbers(numbers(skipped@)),
            views(shown@) == all.take(i as int),
        decreases skipped.len() - i,
    {
        assert(all.take(i + 1) =~= all.take(i as int).push(dec(skipped@[i as int] as nat)));
        push_text(&mut shown, crate::strs::decimal(skipped[i]));
        i += 1;
    }
    assert(all.take(i as int) =~= all);
    push_text(
        out,
        cat5(
            "issue: ",
            decimal_len(skipped.len()).as_str(),
            " unparseable line(s) skipped on replay (file lines ",
            join(&shown, ", ").as_str(),
            ")",
        ),
    );
    assert(views(out@) =~= start + unread_note(numbers(skipped@)));
}

fn add_pairing(out: &mut Vec<String>, items: &Vec<Item>)
    ensures
        views(final(out)@) == views(old(out)@) + pairing(
            items_view(items@),
            items@.len() as int,
        ),
{
    let ghost all = items_view(items@);
    let ghost start = views(out@);
    let mut i: usize = 0;
    assert(start + pairing(all, 0) =~= start);
    while i < items.len()
        invariant
            i <= items@.len(),
            all == items_view(items@),
            views(out@) == start + pairing(all, i as int),
        decreases items.len() - i,
    {
        let n: usize = i + 1;
        assert(all[i as int] == items@[i as int]@);
        let ghost had = pairing(all, i as int);
        match &items[i] {
            Item::ToolCall { call_id, name, .. } => {
                if called_before(items, i, call_id.as_str()) {
                    let head = cat5(
                        "issue: [",
                        decimal_len(n).as_str(),
                        "] duplicate call_id '",
                        call_id.as_str(),
                        "' (",
                    );
                    push_text(out, cat3(head.as_str(), name.as_str(), ")"));
                    assert(views(out@) =~= start + pairing(all, n as int));
                }
            },
            Item::ToolOutput { call_id, .. } => {
                if !waits_before(items, i, call_id.as_str()) {
                    push_text(
                        out,
                        cat5(
                            "issue: [",
                            decimal_len(n).as_str(),
                            "] tool_output for unknown call_id '",
                            call_id.as_str(),
                            "'",
                        ),
                    );
                    assert(views(out@) =~= start + pairing(all, n as int));
                }
            },
            _ => {},
        }
        i += 1;
    }
}

fn add_dangling(out: &mut Vec<String>, items: &Vec<Item>)
    ensures
        views(final(out)@) == views(old(out)@) + dangling_calls(
            items_view(items@),
            items@.len() as int,
        ),
{
    let ghost all = items_view(items@);
    let ghost start = views(out@);
    let mut i: usize = 0;
    assert(start + dangling_calls(all, 0) =~= start);
    while i < items.len()
        invariant
            i <= items@.len(),
            all == items_view(items@),
            views(out@) == start + dangling_calls(all, i as int),
        decreases items.len() - i,
    {
        let n: usize = i + 1;
        assert(all[i as int] == items@[i as int]@);
        if waits_at_end(items, i) {
            match &items[i] {
                Item::ToolCall { call_id, .. } => {
                    push_text(
                        out,
                        cat5(
                            "issue: [",
                            decimal_len(n).as_str(),
                            "] tool_call '",
                            call_id.as_str(),
                            "' never got a tool_output (crash or quit mid-turn)",
                        ),
                    );
                    assert(views(out@) =~= start + dangling_calls(all, n as int));
                },
                _ => {},
            }
        }
        i += 1;
    }
}

fn add_dead_turns(out: &mut Vec<String>, items: &Vec<Item>)
    ensures
        views(final(out)@) == views(old(out)@) + dead_turns(
            items_view(items@),
            items@.len() as int,
        ) + open_request(items_view(items@)),
{
    let ghost all = items_view(items@);
    let ghost start = views(out@);
    let mut prev_request = false;
    let mut i: usize = 0;
    assert(start + dead_turns(all, 0) =~= start);
    while i < items.len()
        invariant
            i <= items@.len(),
            all == items_view(items@),
            views(out@) == start + dead_turns(all, i as int),
            prev_request == (i > 0 && is_request(all[i - 1])),
        decreases items.len() - i,
    {
        let n: usize = i + 1;
        assert(all[i as int] == items@[i as int]@);
        let now = request(&items[i]);
        if prev_request && now {
            push_text(
                out,
                cat5(
                    "issue: [",
                    decimal_len(i).as_str(),
                    "] user item got no response before [",
                    decimal_len(n).as_str(),
                    "] (dead turn)",
                ),
            );
            assert(views(out@) =~= start + dead_turns(all, n as int));
        }
        prev_request = now;
        i += 1;
    }
    let ghost mid = views(out@);
    assert(all.len() == items@.len());
    if prev_request {
        push_text(
            out,
            cat3(
                "note: session ends on unanswered user item [",
                decimal_len(items.len()).as_str(),
                "] (quit or crash before the turn finished)",
            ),
        );
        assert(views(out@) =~= mid + open_request(all));
    } else {
        assert(mid + open_request(all) =~= mid);
    }
}

fn add_empty_answers(out: &mut Vec<String>, items: &Vec<Item>)
    ensures
        views(final(out)@) == views(old(out)@) + empty_answers(
            items_view(items@),
            items@.len() as int,
        ),
{
    let ghost all = items_view(items@);
    let ghost start = views(out@);
    let mut i: usize = 0;
    assert(start + empty_answers(all, 0) =~= start);
    while i < items.len()
        invariant
            i <= items@.len(),
            all == items_view(items@),
            views(out@) == start + empty_answers(all, i as int),
        decreases items.len() - i,
    {
        let n: usize = i + 1;
        assert(all[i as int] == items@[i as int]@);
        match &items[i] {
            Item::Assistant { text } => {
                let shown = trim(text.as_str());
                if shown.as_str().is_empty() {
                    push_text(
                        out,
                        cat3("issue: [", decimal_len(n).as_str(), "] assistant item is empty"),
                    );
                    assert(views(out@) =~= start + empty_answers(all, n as int));
                }
            },
            _ => {},
        }
        i += 1;
    }
}

fn add_failures(out: &mut Vec<String>, items: &Vec<Item>)
    ensures
        views(final(out)@) == views(old(out)@) + failure_note(
            failures(items_view(items@), items@.len() as int),
        ),
{
    let ghost all = items_view(items@);
    let ghost start = views(out@);
    let mut found: Vec<String> = Vec::new();
    let mut i: usize = 0;
    assert(views(found@) =~= Seq::empty());
    while i < items.len()
        invariant
            i <= items@.len(),
            all == items_view(items@),
            views(found@) == failures(all, i as int),
        decreases items.len() - i,
    {
        let n: usize = i + 1;
        assert(all[i as int] == items@[i as int]@);
        match &items[i] {
            Item::ToolOutput { output, is_error, .. } => {
                if *is_error {
                    let parts = lines(output.as_str());
                    assert(views(parts@).len() == parts@.len());
                    let first = if parts.len() == 0 {
                        String::new()
                    } else {
                        assert(views(parts@)[0] == parts@[0]@);
                        parts[0].clone()
                    };
                    assert(first@ == first_line(output@));
                    push_text(
                        &mut found,
                        cat4(
                            "[",
                            decimal_len(n).as_str(),
                            "] ",
                            truncate_marked(first.as_str(), 120, "...").as_str(),
                        ),
                    );
                }
            },
            _ => {},
        }
        i += 1;
    }
    assert(views(found@).len() == found@.len());
    if found.len() > 0 {
        push_text(
            out,
            cat4(
                "note: ",
                decimal_len(found.len()).as_str(),
                " tool failure(s) fed back to the model: ",
                join(&found, "; ").as_str(),
            ),
        );
        assert(views(out@) =~= start + failure_note(views(found@)));
    } else {
        assert(start + failure_note(views(found@)) =~= start);
    }
}

fn add_aborts(out: &mut Vec<String>, items: &Vec<Item>)
    ensures
        views(final(out)@) == views(old(out)@) + abort_note(
            aborts(items_view(items@), items@.len() as int),
        ),
{
    let ghost all = items_view(items@);
    let ghost start = views(out@);
    let mut count: usize = 0;
    let mut i: usize = 0;
    while i < items.len()
        invariant
            i <= items@.len(),
            all == items_view(items@),
            count == aborts(all, i as int),
            count <= i,
        decreases items.len() - i,
    {
        assert(all[i as int] == items@[i as int]@);
        match &items[i] {
            Item::User { text } => {
                if is_aborted_marker(text.as_str()) {
                    count += 1;
                }
            },
            _ => {},
        }
        i += 1;
    }
    if count > 0 {
        push_text(out, cat3("note: ", decimal_len(count).as_str(), " interrupted turn(s)"));
        assert(views(out@) =~= start + abort_note(count as nat));
    } else {
        assert(start + abort_note(0) =~= start);
    }
}

/// Looks a conversation through.
pub fn audit(items: &Vec<Item>, skipped: &Vec<u64>) -> (r: Vec<String>)
    ensures
        views(r@) == findings(items_view(items@), numbers(skipped@)),
{
    let mut out: Vec<String> = Vec::new();
    assert(views(out@) =~= Seq::empty());
    add_unread(&mut out, skipped);
    assert(views(out@) =~= unread_note(numbers(skipped@)));
    add_pairing(&mut out, items);
    add_dangling(&mut out, items);
    add_dead_turns(&mut out, items);
    add_empty_answers(&mut out, items);
    add_failures(&mut out, items);
    add_aborts(&mut out, items);
    assert(items_view(items@).len() == items@.len());
    out
}

/// What is found in the text of a saved conversation.
pub open spec fn audited(raw: Seq<char>) -> Option<(SessionMetaV, nat, Seq<Seq<char>>)> {
    let all = lines_of(raw);
    if all.len() == 0 {
        None
    } else {
        match header_in(all[0]) {
            Some(h) => {
                let items = read_items(all.drop_first());
                Some((h, items.len(), findings(items, unread_lines(all.drop_first()))))
            },
            None => None,
        }
    }
}

pub open spec fn audit_view(a: SessionAudit) -> (SessionMetaV, nat, Seq<Seq<char>>) {
    (a.meta@, a.item_count as nat, views(a.entries@))
}

/// Reads and looks through a saved conversation.
pub fn audit_raw(raw: &str) -> (r: Result<SessionAudit, &'static str>)
    ensures
        match r {
            Ok(a) => audited(raw@) == Some(audit_view(a)),
            Err(m) => audited(raw@) is None && m@ == "first line is not a session header"@,
        },
{
    match parse_raw(raw) {
        Ok(p) => {
            let (meta, items, skipped) = p;
            assert(items_view(items@).len() == items@.len());
            Ok(SessionAudit { meta, item_count: items.len(), entries: audit(&items, &skipped) })
        },
        Err(m) => Err(m),
    }
}

// Laws

/// Whether every line is an issue.
pub open spec fn only_issues(v: Seq<Seq<char>>) -> bool {
    forall|k: int| 0 <= k < v.len() ==> is_issue(#[trigger] v[k])
}

/// Whether no line is an issue.
pub open spec fn no_issues(v: Seq<Seq<char>>) -> bool {
    forall|k: int| 0 <= k < v.len() ==> !is_issue(#[trigger] v[k])
}

proof fn lemma_issues_add(a: Seq<Seq<char>>, b: Seq<Seq<char>>)
    ensures
        issues_in(a + b) == issues_in(a) + issues_in(b),
    decreases b.len(),
{
    if b.len() == 0 {
        assert(a + b =~= a);
    } else {
        assert((a + b).drop_last() =~= a + b.drop_last());
        lemma_issues_add(a, b.drop_last());
    }
}

proof fn lemma_issues_all(v: Seq<Seq<char>>)
    ensures
        only_issues(v) ==> issues_in(v) == v.len(),
        no_issues(v) ==> issues_in(v) == 0,
    decreases v.len(),
{
    if v.len() > 0 {
        lemma_issues_all(v.drop_last());
        assert(v[v.len() - 1] == v.last());
        assert(forall|k: int| 0 <= k < v.len() - 1 ==> v.drop_last()[k] == #[trigger] v[k]);
    }
}

/// Whether the item at `k` is a call whose id came before, or an output that no call waits for.
pub open spec fn mispaired(items: Seq<ItemV>, k: int) -> bool {
    match items[k] {
        ItemV::ToolCall { call_id, .. } => called(items.take(k), call_id),
        ItemV::ToolOutput { call_id, .. } => !waits(items.take(k), call_id),
        _ => false,
    }
}

/// Whether the item at `k` is a request right behind another one.
pub open spec fn follows_request(items: Seq<ItemV>, k: int) -> bool {
    is_request(items[k - 1]) && is_request(items[k])
}

/// Whether the item at `k` is a blank answer.
pub open spec fn blank_answer(items: Seq<ItemV>, k: int) -> bool {
    items[k] matches ItemV::Assistant { text } && blank(text)
}

proof fn lemma_pairing(items: Seq<ItemV>, n: int)
    requires
        0 <= n <= items.len(),
    ensures
        only_issues(pairing(items, n)),
        pairing(items, n).len() == 0 <==> forall|k: int|
            0 <= k < n ==> !(#[trigger] mispaired(items, k)),
    decreases n,
{
    reveal_strlit("issue:");
    reveal_strlit("issue: [");
    if n > 0 {
        lemma_pairing(items, n - 1);
        let before = pairing(items, n - 1);
        let now = pairing(items, n);
        assert(mispaired(items, n - 1) <==> now.len() == before.len() + 1);
        assert forall|k: int| 0 <= k < now.len() implies is_issue(#[trigger] now[k]) by {
            if k < before.len() {
                assert(now[k] == before[k]);
            } else {
                assert(now[k].subrange(0, 6) =~= "issue:"@);
            }
        }
    }
}

proof fn lemma_dangling_calls(items: Seq<ItemV>, n: int)
    requires
        0 <= n <= items.len(),
    ensures
        only_issues(dangling_calls(items, n)),
        dangling_calls(items, n).len() == 0 <==> forall|k: int|
            0 <= k < n ==> !(#[trigger] unanswered(items, k)),
    decreases n,
{
    reveal_strlit("issue:");
    reveal_strlit("issue: [");
    if n > 0 {
        lemma_dangling_calls(items, n - 1);
        let before = dangling_calls(items, n - 1);
        let now = dangling_calls(items, n);
        assert(unanswered(items, n - 1) <==> now.len() == before.len() + 1);
        assert forall|k: int| 0 <= k < now.len() implies is_issue(#[trigger] now[k]) by {
            if k < before.len() {
                assert(now[k] == before[k]);
            } else {
                assert(now[k].subrange(0, 6) =~= "issue:"@);
            }
        }
    }
}

proof fn lemma_dead_turns(items: Seq<ItemV>, n: int)
    requires
        0 <= n <= items.len(),
    ensures
        only_issues(dead_turns(items, n)),
        dead_turns(items, n).len() == 0 <==> forall|k: int|
            1 <= k < n ==> !(#[trigger] follows_request(items, k)),
    decreases n,
{
    reveal_strlit("issue:");
    reveal_strlit("issue: [");
    if n > 1 {
        lemma_dead_turns(items, n - 1);
        let before = dead_turns(items, n - 1);
        let now = dead_turns(items, n);
        assert(follows_request(items, n - 1) <==> now.len() == before.len() + 1);
        assert forall|k: int| 0 <= k < now.len() implies is_issue(#[trigger] now[k]) by {
            if k < before.len() {
                assert(now[k] == before[k]);
            } else {
                assert(now[k].subrange(0, 6) =~= "issue:"@);
            }
        }
    }
}

proof fn lemma_empty_answers(items: Seq<ItemV>, n: int)
    requires
        0 <= n <= items.len(),
    ensures
        only_issues(empty_answers(items, n)),
        empty_answers(items, n).len() == 0 <==> forall|k: int|
            0 <= k < n ==> !(#[trigger] blank_answer(items, k)),
    decreases n,
{
    reveal_strlit("issue:");
    reveal_strlit("issue: [");
    if n > 0 {
        lemma_empty_answers(items, n - 1);
        let before = empty_answers(items, n - 1);
        let now = empty_answers(items, n);
        assert(blank_answer(items, n - 1) <==> now.len() == before.len() + 1);
        assert forall|k: int| 0 <= k < now.len() implies is_issue(#[trigger] now[k]) by {
            if k < before.len() {
                assert(now[k] == before[k]);
            } else {
                assert(now[k].subrange(0, 6) =~= "issue:"@);
            }
        }
    }
}

/// What must hold of a conversation: every line reads, every call has its own id and an output,
/// every output a call, every request an answer before the next one, and no answer is blank.
pub open spec fn is_clean(items: Seq<ItemV>, skipped: Seq<nat>) -> bool {
    &&& skipped.len() == 0
    &&& forall|k: int| 0 <= k < items.len() ==> !(#[trigger] mispaired(items, k))
    &&& forall|k: int| 0 <= k < items.len() ==> !(#[trigger] unanswered(items, k))
    &&& forall|k: int| 1 <= k < items.len() ==> !(#[trigger] follows_request(items, k))
    &&& forall|k: int| 0 <= k < items.len() ==> !(#[trigger] blank_answer(items, k))
}

/// No issue is found just where all that must hold does, and notes are never counted as issues.
pub proof fn law_clean_means_no_issue(items: Seq<ItemV>, skipped: Seq<nat>)
    ensures
        issues_in(findings(items, skipped)) == 0 <==> is_clean(items, skipped),
        issues_in(findings(items, skipped)) == unread_note(skipped).len() + pairing(
            items,
            items.len() as int,
        ).len() + dangling_calls(items, items.len() as int).len() + dead_turns(
            items,
            items.len() as int,
        ).len() + empty_answers(items, items.len() as int).len(),
{
    let n = items.len() as int;
    let a = unread_note(skipped);
    let b = pairing(items, n);
    let c = dangling_calls(items, n);
    let d = dead_turns(items, n);
    let e = open_request(items);
    let f = empty_answers(items, n);
    let g = failure_note(failures(items, n));
    let h = abort_note(aborts(items, n));
    lemma_issues_add(a, b);
    lemma_issues_add(a + b, c);
    lemma_issues_add(a + b + c, d);
    lemma_issues_add(a + b + c + d, e);
    lemma_issues_add(a + b + c + d + e, f);
    lemma_issues_add(a + b + c + d + e + f, g);
    lemma_issues_add(a + b + c + d + e + f + g, h);
    lemma_pairing(items, n);
    lemma_dangling_calls(items, n);
    if n > 0 {
        lemma_dead_turns(items, n);
    }
    lemma_empty_answers(items, n);
    reveal_strlit("issue:");
    reveal_strlit("issue: ");
    reveal_strlit("note: ");
    reveal_strlit("note: session ends on unanswered user item [");
    assert(only_issues(a)) by {
        if a.len() > 0 {
            assert(a[0].subrange(0, 6) =~= "issue:"@);
        }
    }
    assert(no_issues(e)) by {
        if e.len() > 0 {
            assert(e[0][0] == 'n');
            assert(e[0].subrange(0, 6)[0] == e[0][0]);
        }
    }
    assert(no_issues(g)) by {
        if g.len() > 0 {
            assert(g[0][0] == 'n');
            assert(g[0].subrange(0, 6)[0] == g[0][0]);
        }
    }
    assert(no_issues(h)) by {
        if h.len() > 0 {
            assert(h[0][0] == 'n');
            assert(h[0].subrange(0, 6)[0] == h[0][0]);
        }
    }
    lemma_issues_all(a);
    lemma_issues_all(b);
    lemma_issues_all(c);
    lemma_issues_all(d);
    lemma_issues_all(e);
    lemma_issues_all(f);
    lemma_issues_all(g);
    lemma_issues_all(h);
}

/// What marks an interrupted turn or a report is no request, so it never makes a turn a dead one.
pub proof fn law_markers_are_no_requests(comment: Seq<char>)
    ensures
        !is_request(ItemV::User { text: crate::debug::reports::marker_of(comment) }),
        !is_request(ItemV::User { text: crate::agent::TURN_ABORTED_MARKER@ }),
{
    crate::debug::reports::law_marker_is_flagged(comment);
    reveal_strlit("<turn_aborted>");
    reveal_strlit(
        "<turn_aborted>The user interrupted the previous turn. Tools may have partially executed.</turn_aborted>",
    );
    let t = crate::agent::TURN_ABORTED_MARKER@;
    assert(t.subrange(0, 14) =~= "<turn_aborted>"@);
}

} // verus!
