//! What a saved conversation holds.

use crate::agent::ItemV;
use crate::dates::{is_before, law_order_is_newest_first, newest_order};
use crate::json::{member, JsonV};
use crate::session::{
    age_text, header_of, item_in, item_of, items_in, newest_first, starts, SessionMetaV,
};
use crate::strs::dec;
use vstd::prelude::*;

verus! {

/// An age is shown in seconds below a minute, in minutes below an hour, in hours below a day, and
/// else in days.
pub proof fn law_ages_are_shown(n: nat, rest: nat)
    ensures
        n < 60 ==> age_text(n) == dec(n) + "s ago"@,
        0 < n < 60 && rest < 60 ==> age_text(n * 60 + rest) == dec(n) + "m ago"@,
        0 < n < 24 && rest < 3600 ==> age_text(n * 3600 + rest) == dec(n) + "h ago"@,
        0 < n && rest < 86400 ==> age_text(n * 86400 + rest) == dec(n) + "d ago"@,
{
}

/// The items of lines are those of the lines that hold one, in their order.
pub proof fn law_items_are_those_that_read(lines: Seq<Seq<char>>)
    ensures
        items_in(lines) == lines.filter(|l: Seq<char>| item_in(l) is Some).map_values(
            |l: Seq<char>| item_in(l)->0,
        ),
    decreases lines.len(),
{
    reveal(Seq::filter);
    let reads = |l: Seq<char>| item_in(l) is Some;
    let item = |l: Seq<char>| item_in(l)->0;
    if lines.len() > 0 {
        law_items_are_those_that_read(lines.drop_last());
        let before = lines.drop_last().filter(reads);
        if reads(lines.last()) {
            assert(before.push(lines.last()).map_values(item) =~= before.map_values(item).push(
                item(lines.last()),
            ));
        }
    } else {
        assert(lines.filter(reads).map_values(item) =~= Seq::empty());
    }
}

/// An item is told by its type, and has its parts under their names; an output is no error where
/// nothing else is said.
pub proof fn law_items_have_their_parts(j: JsonV)
    requires
        j is Object,
    ensures
        item_of(j) matches Some(ItemV::User { text }) ==> member(j, "type"@) == Some(
            JsonV::Text("user"@),
        ) && member(j, "text"@) == Some(JsonV::Text(text)),
        item_of(j) matches Some(ItemV::Assistant { text }) ==> member(j, "type"@) == Some(
            JsonV::Text("assistant"@),
        ) && member(j, "text"@) == Some(JsonV::Text(text)),
        item_of(j) matches Some(ItemV::ToolCall { call_id, name, args }) ==> member(j, "type"@)
            == Some(JsonV::Text("tool_call"@)) && member(j, "call_id"@) == Some(
            JsonV::Text(call_id),
        ) && member(j, "name"@) == Some(JsonV::Text(name)) && member(j, "args"@) == Some(args),
        item_of(j) matches Some(ItemV::ToolOutput { call_id, output, is_error }) ==> member(
            j,
            "type"@,
        ) == Some(JsonV::Text("tool_output"@)) && member(j, "call_id"@) == Some(
            JsonV::Text(call_id),
        ) && member(j, "output"@) == Some(JsonV::Text(output)) && (is_error ==> member(
            j,
            "is_error"@,
        ) == Some(JsonV::Bool(true))),
{
}

/// A header has its id, its root and its time under their names.
pub proof fn law_header_has_its_parts(j: JsonV, s: JsonV)
    requires
        j is Object,
        s is Object,
        member(j, "session"@) == Some(s),
        header_of(j) is Some,
    ensures
        ({
            let h = header_of(j)->0;
            &&& member(s, "id"@) == Some(JsonV::Text(h.id))
            &&& member(s, "data_root"@) == Some(JsonV::Text(h.data_root))
            &&& member(s, "started_at"@) matches Some(JsonV::Text(at)) && crate::dates::moment_of(at)
                == Some(h.started_at)
        }),
{
}

/// No conversation comes before a newer one.
pub proof fn law_newest_conversations_come_first(v: Seq<SessionMetaV>, i: int, j: int)
    requires
        0 <= i < j < newest_first(v).len(),
    ensures
        newest_first(v).len() == v.len(),
        !is_before(newest_first(v)[i].started_at, newest_first(v)[j].started_at),
        v.contains(newest_first(v)[i]),
{
    let times = starts(v);
    law_order_is_newest_first(times, v.len() as int);
    let o = newest_order(times, v.len() as int);
    assert(newest_first(v)[i] == v[o[i]]);
    assert(newest_first(v)[j] == v[o[j]]);
}

} // verus!
