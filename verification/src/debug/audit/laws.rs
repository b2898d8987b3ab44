//! What is found in a saved conversation.

use crate::agent::ItemV;
use crate::debug::audit::{
    abort_note, aborts, dead_turns, failure_note, failures, findings, is_issue, is_request,
    issues_in, marks_abort, open_request, read_items, unread_lines, unread_note,
};
use crate::session::item_in;
use crate::strs::{dec, trimmed};
use vstd::prelude::*;

verus! {

/// The issues are the lines that begin with the word.
pub proof fn law_issues_are_counted(entries: Seq<Seq<char>>)
    ensures
        issues_in(entries) == entries.filter(|e: Seq<char>| is_issue(e)).len(),
    decreases entries.len(),
{
    reveal(Seq::filter);
    if entries.len() > 0 {
        law_issues_are_counted(entries.drop_last());
    }
}

/// Just the lines that hold an item are read, in their order.
pub proof fn law_items_are_read_in_order(lines: Seq<Seq<char>>)
    ensures
        read_items(lines) == lines.filter(
            |l: Seq<char>| trimmed(l).len() > 0 && item_in(l) is Some,
        ).map_values(|l: Seq<char>| item_in(l)->0),
    decreases lines.len(),
{
    reveal(Seq::filter);
    let reads = |l: Seq<char>| trimmed(l).len() > 0 && item_in(l) is Some;
    let item = |l: Seq<char>| item_in(l)->0;
    if lines.len() > 0 {
        law_items_are_read_in_order(lines.drop_last());
        let before = lines.drop_last().filter(reads);
        if reads(lines.last()) {
            assert(before.push(lines.last()).map_values(item) =~= before.map_values(item).push(
                item(lines.last()),
            ));
        }
    } else {
        assert(lines.filter(reads).map_values(item) =~= Seq::empty());
    }
}

/// A line is told as unread just where it is not blank and holds no item; the first line behind the
/// header is the second of the file.
pub proof fn law_unread_lines_have_their_numbers(lines: Seq<Seq<char>>, n: nat)
    ensures
        unread_lines(lines).contains(n) <==> 2 <= n <= lines.len() + 1 && trimmed(
            lines[n - 2],
        ).len() > 0 && item_in(lines[n - 2]) is None,
    decreases lines.len(),
{
    if lines.len() > 0 {
        let rest = lines.drop_last();
        let before = unread_lines(rest);
        let now = unread_lines(lines);
        law_unread_lines_have_their_numbers(rest, n);
        if 2 <= n <= rest.len() + 1 {
            assert(rest[n - 2] == lines[n - 2]);
        }
        if now.contains(n) {
            let k = choose|k: int| 0 <= k < now.len() && now[k] == n;
            if k < before.len() {
                assert(before[k] == n);
            }
        }
        if before.contains(n) {
            let k = choose|k: int| 0 <= k < before.len() && before[k] == n;
            assert(now[k] == n);
        }
        if n == lines.len() + 1 && now.len() > before.len() {
            assert(now[before.len() as int] == n);
        }
    }
}

/// The failures are the outputs that are errors, and the interrupted turns are the markers of them.
pub proof fn law_failures_and_interrupts_are_counted(items: Seq<ItemV>, n: int)
    requires
        0 <= n <= items.len(),
    ensures
        failures(items, n).len() == items.take(n).filter(
            |i: ItemV| i matches ItemV::ToolOutput { is_error, .. } && is_error,
        ).len(),
        aborts(items, n) == items.take(n).filter(
            |i: ItemV| i matches ItemV::User { text } && marks_abort(text),
        ).len(),
    decreases n,
{
    reveal(Seq::filter);
    if n > 0 {
        law_failures_and_interrupts_are_counted(items, n - 1);
        assert(items.take(n).drop_last() =~= items.take(n - 1));
    }
}

/// A turn is told as dead for every request that another request follows at once, and the last
/// request as open just where nothing follows it.
pub proof fn law_dead_turns_are_told(items: Seq<ItemV>, n: int)
    requires
        1 <= n <= items.len(),
    ensures
        n >= 2 && is_request(items[n - 2]) && is_request(items[n - 1]) ==> dead_turns(items, n)
            == dead_turns(items, n - 1).push(
            "issue: ["@ + dec((n - 1) as nat) + "] user item got no response before ["@ + dec(
                n as nat,
            ) + "] (dead turn)"@,
        ),
        n >= 2 && !(is_request(items[n - 2]) && is_request(items[n - 1])) ==> dead_turns(items, n)
            == dead_turns(items, n - 1),
        dead_turns(items, 1).len() == 0,
        open_request(items).len() > 0 <==> is_request(items.last()),
{
    if n >= 2 {
        reveal_with_fuel(dead_turns, 2);
        if n == 2 {
            assert(dead_turns(items, 1) =~= Seq::empty());
        }
    }
}

/// Unread lines, failures and interrupted turns are told in one line each, where there are any,
/// with their number.
pub proof fn law_notes_tell_their_number(items: Seq<ItemV>, skipped: Seq<nat>)
    ensures
        unread_note(skipped).len() == if skipped.len() > 0 {
            1nat
        } else {
            0
        },
        failure_note(failures(items, items.len() as int)).len() == if failures(
            items,
            items.len() as int,
        ).len() > 0 {
            1nat
        } else {
            0
        },
        aborts(items, items.len() as int) > 0 ==> abort_note(aborts(items, items.len() as int))
            == seq![
            "note: "@ + dec(aborts(items, items.len() as int)) + " interrupted turn(s)"@,
        ],
        aborts(items, items.len() as int) == 0 ==> abort_note(
            aborts(items, items.len() as int),
        ).len() == 0,
        items.len() == 0 && skipped.len() == 0 ==> findings(items, skipped).len() == 0,
{
}

} // verus!
