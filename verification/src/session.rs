//! Saved conversations: a header line, then one item to a line.

use crate::agent::{items_view, lemma_items_push, Item, ItemV};
use crate::dates::{
    indices, is_common, moment_of, newest_order, order_newest, parse_moment, show_stamp,
    stamp_shown, Moment,
};
use crate::json::{
    find_key, json_normal, json_parsed, json_plain, json_printed, law_normal_keeps_members,
    lemma_object_plain, member, object1, object2, object3, object4, text, text_in, Json, JsonV,
    MAX_DEPTH,
};
use crate::records::{field, field_of, flag_field, flag_or_missing, is_record, record};
use crate::strs::{
    cat2, cat4, cat6, dec, decimal, law_appended_line_is_the_last, lemma_split_on_len, lines,
    lines_of, opt_view, push_char, same, split_on, views,
};
use vstd::prelude::*;

pub mod laws;

verus! {

/// The header of a saved conversation.
#[derive(Debug, Clone)]
pub struct SessionMeta {
    pub id: String,
    pub started_at: Moment,
    pub data_root: String,
}

#[verifier::ext_equal]
pub struct SessionMetaV {
    pub id: Seq<char>,
    pub started_at: Moment,
    pub data_root: Seq<char>,
}

impl View for SessionMeta {
    type V = SessionMetaV;

    open spec fn view(&self) -> SessionMetaV {
        SessionMetaV {
            id: self.id@,
            started_at: self.started_at,
            data_root: self.data_root@,
        }
    }
}

pub open spec fn metas_view(v: Seq<SessionMeta>) -> Seq<SessionMetaV> {
    v.map_values(|m: SessionMeta| m@)
}

// Items as documents

pub open spec fn item_document(i: ItemV) -> JsonV {
    match i {
        ItemV::User { text } => JsonV::Object(
            seq![("type"@, JsonV::Text("user"@)), ("text"@, JsonV::Text(text))],
        ),
        ItemV::Assistant { text } => JsonV::Object(
            seq![("type"@, JsonV::Text("assistant"@)), ("text"@, JsonV::Text(text))],
        ),
        ItemV::ToolCall { call_id, name, args } => JsonV::Object(
            seq![
                ("type"@, JsonV::Text("tool_call"@)),
                ("call_id"@, JsonV::Text(call_id)),
                ("name"@, JsonV::Text(name)),
                ("args"@, args),
            ],
        ),
        ItemV::ToolOutput { call_id, output, is_error } => JsonV::Object(
            seq![
                ("type"@, JsonV::Text("tool_output"@)),
                ("call_id"@, JsonV::Text(call_id)),
                ("output"@, JsonV::Text(output)),
                ("is_error"@, JsonV::Bool(is_error)),
            ],
        ),
    }
}

/// The document of an item.
pub fn item_json(i: &Item) -> (r: Json)
    ensures
        r@ == item_document(i@),
{
    match i {
        Item::User { text: t } => object2("type", text("user"), "text", text(t.as_str())),
        Item::Assistant { text: t } => object2(
            "type",
            text("assistant"),
            "text",
            text(t.as_str()),
        ),
        Item::ToolCall { call_id, name, args } => object4(
            "type",
            text("tool_call"),
            "call_id",
            text(call_id.as_str()),
            "name",
            text(name.as_str()),
            "args",
            args.copy(),
        ),
        Item::ToolOutput { call_id, output, is_error } => object4(
            "type",
            text("tool_output"),
            "call_id",
            text(call_id.as_str()),
            "output",
            text(output.as_str()),
            "is_error",
            Json::Bool(*is_error),
        ),
    }
}

/// The item that a document holds: `type` says which, the other fields follow; `is_error` may be
/// missing.
pub open spec fn item_of(j: JsonV) -> Option<ItemV> {
    let kind = text_in(field(j, "type"@, 0));
    if kind == Some("user"@) || kind == Some("assistant"@) {
        match text_in(field(j, "text"@, 1)) {
            Some(t) => if !is_record(j, 2) {
                None
            } else if kind == Some("user"@) {
                Some(ItemV::User { text: t })
            } else {
                Some(ItemV::Assistant { text: t })
            },
            None => None,
        }
    } else if kind == Some("tool_call"@) {
        match (text_in(field(j, "call_id"@, 1)), text_in(field(j, "name"@, 2)), field(j, "args"@, 3)) {
            (Some(call_id), Some(name), Some(args)) => if is_record(j, 4) {
                Some(ItemV::ToolCall { call_id, name, args })
            } else {
                None
            },
            _ => None,
        }
    } else if kind == Some("tool_output"@) {
        match (
            text_in(field(j, "call_id"@, 1)),
            text_in(field(j, "output"@, 2)),
            flag_or_missing(field(j, "is_error"@, 3)),
        ) {
            (Some(call_id), Some(output), Some(is_error)) => if is_record(j, 4) {
                Some(ItemV::ToolOutput { call_id, output, is_error })
            } else {
                None
            },
            _ => None,
        }
    } else {
        None
    }
}

fn text_at(j: &Json, key: &str, i: usize) -> (r: Option<String>)
    ensures
        opt_view(r) == text_in(field(j@, key@, i as int)),
{
    match field_of(j, key, i) {
        Some(v) => match v.as_str() {
            Some(s) => Some(s.to_owned()),
            None => None,
        },
        None => None,
    }
}

/// Reads an item out of a document.
pub fn read_item(j: &Json) -> (r: Option<Item>)
    ensures
        match r {
            Some(i) => item_of(j@) == Some(i@),
            None => item_of(j@) is None,
        },
{
    let kind = match text_at(j, "type", 0) {
        Some(k) => k,
        None => {
            return None;
        },
    };
    if same(kind.as_str(), "user") {
        match text_at(j, "text", 1) {
            Some(t) => if record(j, 2) {
                Some(Item::User { text: t })
            } else {
                None
            },
            None => None,
        }
    } else if same(kind.as_str(), "assistant") {
        match text_at(j, "text", 1) {
            Some(t) => if record(j, 2) {
                Some(Item::Assistant { text: t })
            } else {
                None
            },
            None => None,
        }
    } else if same(kind.as_str(), "tool_call") {
        match (text_at(j, "call_id", 1), text_at(j, "name", 2), field_of(j, "args", 3)) {
            (Some(call_id), Some(name), Some(args)) => if record(j, 4) {
                Some(Item::ToolCall { call_id, name, args: args.copy() })
            } else {
                None
            },
            _ => None,
        }
    } else if same(kind.as_str(), "tool_output") {
        match (
            text_at(j, "call_id", 1),
            text_at(j, "output", 2),
            flag_field(field_of(j, "is_error", 3)),
        ) {
            (Some(call_id), Some(output), Some(is_error)) => if record(j, 4) {
                Some(Item::ToolOutput { call_id, output, is_error })
            } else {
                None
            },
            _ => None,
        }
    } else {
        None
    }
}

/// The names in the documents of items differ.
proof fn lemma_item_names()
    ensures
        "type"@ != "text"@,
        "type"@ != "call_id"@,
        "type"@ != "name"@,
        "type"@ != "args"@,
        "type"@ != "output"@,
        "type"@ != "is_error"@,
        "call_id"@ != "name"@,
        "call_id"@ != "args"@,
        "call_id"@ != "output"@,
        "call_id"@ != "is_error"@,
        "name"@ != "args"@,
        "output"@ != "is_error"@,
        "user"@ != "assistant"@,
        "user"@ != "tool_call"@,
        "user"@ != "tool_output"@,
        "assistant"@ != "tool_call"@,
        "assistant"@ != "tool_output"@,
        "tool_call"@ != "tool_output"@,
{
    reveal_strlit("type");
    reveal_strlit("text");
    reveal_strlit("call_id");
    reveal_strlit("name");
    reveal_strlit("args");
    reveal_strlit("output");
    reveal_strlit("is_error");
    reveal_strlit("user");
    reveal_strlit("assistant");
    reveal_strlit("tool_call");
    reveal_strlit("tool_output");
    assert("type"@[1] != "text"@[1]);
    assert("type"@.len() != "call_id"@.len());
    assert("type"@[0] != "name"@[0]);
    assert("type"@[0] != "args"@[0]);
    assert("type"@.len() != "output"@.len());
    assert("type"@.len() != "is_error"@.len());
    assert("call_id"@.len() != "name"@.len());
    assert("call_id"@.len() != "args"@.len());
    assert("call_id"@.len() != "output"@.len());
    assert("call_id"@.len() != "is_error"@.len());
    assert("name"@[0] != "args"@[0]);
    assert("output"@.len() != "is_error"@.len());
    assert("user"@.len() != "assistant"@.len());
    assert("user"@.len() != "tool_call"@.len());
    assert("user"@.len() != "tool_output"@.len());
    assert("assistant"@[0] != "tool_call"@[0]);
    assert("assistant"@[0] != "tool_output"@[0]);
    assert("tool_call"@.len() != "tool_output"@.len());
}

/// What is written of an item is read as that item.
pub proof fn law_written_item_is_read_back(i: ItemV)
    ensures
        item_of(item_document(i)) == Some(i),
{
    lemma_item_names();
    let doc = item_document(i)->Object_0;
    match i {
        ItemV::User { text } => {
            lemma_pairs2(doc);
        },
        ItemV::Assistant { text } => {
            lemma_pairs2(doc);
        },
        ItemV::ToolCall { call_id, name, args } => {
            lemma_pairs4(doc);
        },
        ItemV::ToolOutput { call_id, output, is_error } => {
            lemma_pairs4(doc);
        },
    }
}

proof fn lemma_pairs2(d: Seq<(Seq<char>, JsonV)>)
    requires
        d.len() == 2,
    ensures
        forall|k: Seq<char>|
            #[trigger] find_key(d, k) == (if d[0].0 == k {
                Some(d[0].1)
            } else if d[1].0 == k {
                Some(d[1].1)
            } else {
                None
            }),
{
    reveal_with_fuel(find_key, 3);
    assert(d.drop_first()[0] == d[1]);
}

proof fn lemma_pairs4(d: Seq<(Seq<char>, JsonV)>)
    requires
        d.len() == 4,
    ensures
        forall|k: Seq<char>|
            #[trigger] find_key(d, k) == (if d[0].0 == k {
                Some(d[0].1)
            } else if d[1].0 == k {
                Some(d[1].1)
            } else if d[2].0 == k {
                Some(d[2].1)
            } else if d[3].0 == k {
                Some(d[3].1)
            } else {
                None
            }),
{
    reveal_with_fuel(find_key, 5);
    let a = d.drop_first();
    let b = a.drop_first();
    let c = b.drop_first();
    assert(a[0] == d[1] && b[0] == d[2] && c[0] == d[3]);
    assert(c.drop_first().len() == 0);
}

// Lines

/// The header that a document holds.
pub open spec fn header_of(j: JsonV) -> Option<SessionMetaV> {
    if !is_record(j, 1) {
        None
    } else {
        match field(j, "session"@, 0) {
            Some(s) => if is_record(s, 3) {
                match (
                    text_in(field(s, "id"@, 0)),
                    text_in(field(s, "started_at"@, 1)),
                    text_in(field(s, "data_root"@, 2)),
                ) {
                    (Some(id), Some(at), Some(data_root)) => match moment_of(at) {
                        Some(started_at) => Some(SessionMetaV { id, started_at, data_root }),
                        None => None,
                    },
                    _ => None,
                }
            } else {
                None
            },
            None => None,
        }
    }
}

/// The header that a line holds.
pub open spec fn header_in(line: Seq<char>) -> Option<SessionMetaV> {
    match json_parsed(line) {
        Ok(j) => header_of(j),
        Err(_) => None,
    }
}

/// The item that a line holds.
pub open spec fn item_in(line: Seq<char>) -> Option<ItemV> {
    match json_parsed(line) {
        Ok(j) => item_of(j),
        Err(_) => None,
    }
}

/// Reads a header out of a document.
pub fn read_header(j: &Json) -> (r: Option<SessionMeta>)
    ensures
        match r {
            Some(m) => header_of(j@) == Some(m@),
            None => header_of(j@) is None,
        },
{
    if !record(j, 1) {
        return None;
    }
    let s = match field_of(j, "session", 0) {
        Some(s) => s,
        None => {
            return None;
        },
    };
    if !record(s, 3) {
        return None;
    }
    match (text_at(s, "id", 0), text_at(s, "started_at", 1), text_at(s, "data_root", 2)) {
        (Some(id), Some(at), Some(data_root)) => match parse_moment(at.as_str()) {
            Some(started_at) => Some(SessionMeta { id, started_at, data_root }),
            None => None,
        },
        _ => None,
    }
}

/// The header that a line holds, if it is one.
pub fn parse_header_line(line: &str) -> (r: Option<SessionMeta>)
    ensures
        match r {
            Some(m) => header_in(line@) == Some(m@),
            None => header_in(line@) is None,
        },
{
    match Json::parse(line) {
        Ok(j) => read_header(&j),
        Err(_) => None,
    }
}

pub fn parse_item_line(line: &str) -> (r: Option<Item>)
    ensures
        match r {
            Some(i) => item_in(line@) == Some(i@),
            None => item_in(line@) is None,
        },
{
    match Json::parse(line) {
        Ok(j) => read_item(&j),
        Err(_) => None,
    }
}

/// The items of lines; a line that holds none is passed over.
pub open spec fn items_in(lines: Seq<Seq<char>>) -> Seq<ItemV>
    decreases lines.len(),
{
    if lines.len() == 0 {
        Seq::empty()
    } else {
        let before = items_in(lines.drop_last());
        match item_in(lines.last()) {
            Some(i) => before.push(i),
            None => before,
        }
    }
}

/// What a saved conversation says: its header and its items, or why it says nothing.
pub open spec fn replayed(raw: Seq<char>) -> Result<(SessionMetaV, Seq<ItemV>), Seq<char>> {
    let all = lines_of(raw);
    if all.len() == 0 {
        Err("empty session file"@)
    } else {
        match header_in(all[0]) {
            None => Err("first line is not a session header"@),
            Some(h) => Ok((h, items_in(all.drop_first()))),
        }
    }
}

/// Reads a saved conversation: its header and its items.
pub fn parse_session(raw: &str) -> (r: Result<(SessionMeta, Vec<Item>), &'static str>)
    ensures
        match r {
            Ok(p) => replayed(raw@) == Ok::<(SessionMetaV, Seq<ItemV>), Seq<char>>(
                (p.0@, items_view(p.1@)),
            ),
            Err(m) => replayed(raw@) == Err::<(SessionMetaV, Seq<ItemV>), Seq<char>>(m@),
        },
{
    let all = lines(raw);
    let ghost text_lines = lines_of(raw@);
    assert(views(all@).len() == all@.len());
    if all.len() == 0 {
        return Err("empty session file");
    }
    assert(text_lines[0] == all@[0]@);
    let meta = match parse_header_line(all[0].as_str()) {
        Some(m) => m,
        None => {
            return Err("first line is not a session header");
        },
    };
    let ghost rest = text_lines.drop_first();
    let mut items: Vec<Item> = Vec::new();
    let mut i: usize = 1;
    assert(items_view(items@) =~= Seq::empty());
    assert(rest.take(0) =~= Seq::empty());
    while i < all.len()
        invariant
            1 <= i <= all@.len(),
            views(all@) == text_lines,
            rest == text_lines.drop_first(),
            items_view(items@) == items_in(rest.take(i - 1)),
        decreases all.len() - i,
    {
        assert(rest.take(i as int).drop_last() =~= rest.take(i - 1));
        assert(rest[i - 1] == all@[i as int]@) by {
            assert(text_lines[i as int] == views(all@)[i as int]);
        }
        match parse_item_line(all[i].as_str()) {
            Some(it) => {
                proof {
                    lemma_items_push(items@, it);
                }
                items.push(it);
            },
            None => {},
        }
        i += 1;
    }
    assert(rest.take(i - 1) =~= rest);
    Ok((meta, items))
}

// Writing

/// Whether the document of an item reads back: the arguments of a call hold integers for numbers
/// and are not too deep.
pub open spec fn item_plain(i: ItemV) -> bool {
    match i {
        ItemV::ToolCall { args, .. } => json_plain(json_normal(args), MAX_DEPTH - 1),
        _ => true,
    }
}

/// An item as it comes back: the members of the arguments of a call are then in order.
pub open spec fn normal_item(i: ItemV) -> ItemV {
    match i {
        ItemV::ToolCall { call_id, name, args } => ItemV::ToolCall {
            call_id,
            name,
            args: json_normal(args),
        },
        other => other,
    }
}

proof fn lemma_item_normal(i: ItemV)
    ensures
        item_of(json_normal(item_document(i))) == item_of(item_document(normal_item(i))),
        item_plain(i) ==> json_plain(json_normal(item_document(i)), MAX_DEPTH as int),
{
    lemma_item_names();
    let doc = item_document(i)->Object_0;
    let after = item_document(normal_item(i));
    let now = json_normal(item_document(i));
    assert forall|k: Seq<char>| #[trigger] member(now, k) == member(after, k) by {
        law_normal_keeps_members(doc, k);
        match i {
            ItemV::User { .. } => {
                lemma_pairs2(doc);
                lemma_pairs2(after->Object_0);
            },
            ItemV::Assistant { .. } => {
                lemma_pairs2(doc);
                lemma_pairs2(after->Object_0);
            },
            ItemV::ToolCall { .. } => {
                lemma_pairs4(doc);
                lemma_pairs4(after->Object_0);
            },
            ItemV::ToolOutput { .. } => {
                lemma_pairs4(doc);
                lemma_pairs4(after->Object_0);
            },
        }
    }
    assert forall|k: Seq<char>, n: int| #[trigger] field(now, k, n) == field(after, k, n) by {
        assert(member(now, k) == member(after, k));
    }
    if item_plain(i) {
        lemma_object_plain(doc, MAX_DEPTH as int);
    }
}

/// The line of an item. It is read as that item, where its document reads back.
pub fn item_line(i: &Item) -> (r: String)
    ensures
        r@ == json_printed(json_normal(item_document(i@))),
        forall|k: int| 0 <= k < r@.len() ==> #[trigger] r@[k] != '\n' && r@[k] != '\r',
        item_plain(i@) ==> item_in(r@) == Some(normal_item(i@)),
{
    proof {
        lemma_item_normal(i@);
        law_written_item_is_read_back(normal_item(i@));
    }
    item_json(i).to_text()
}

/// What a header line says: the header that was written, where its time reads as one.
pub open spec fn header_written(id: Seq<char>, started_at: Seq<char>, data_root: Seq<char>) -> Option<
    SessionMetaV,
> {
    match moment_of(started_at) {
        Some(at) => Some(SessionMetaV { id, started_at: at, data_root }),
        None => None,
    }
}

pub open spec fn header_document(
    id: Seq<char>,
    started_at: Seq<char>,
    data_root: Seq<char>,
) -> JsonV {
    JsonV::Object(
        seq![
            (
                "session"@,
                JsonV::Object(
                    seq![
                        ("id"@, JsonV::Text(id)),
                        ("started_at"@, JsonV::Text(started_at)),
                        ("data_root"@, JsonV::Text(data_root)),
                    ],
                ),
            ),
        ],
    )
}

proof fn lemma_header(id: Seq<char>, started_at: Seq<char>, data_root: Seq<char>)
    ensures
        header_of(json_normal(header_document(id, started_at, data_root))) == header_written(
            id,
            started_at,
            data_root,
        ),
        json_plain(json_normal(header_document(id, started_at, data_root)), MAX_DEPTH as int),
{
    reveal_strlit("id");
    reveal_strlit("started_at");
    reveal_strlit("data_root");
    assert("id"@.len() == 2 && "started_at"@.len() == 10 && "data_root"@.len() == 9);
    let doc = header_document(id, started_at, data_root)->Object_0;
    let inner = doc[0].1->Object_0;
    reveal_with_fuel(find_key, 4);
    law_normal_keeps_members(doc, "session"@);
    assert(find_key(doc, "session"@) == Some(doc[0].1));
    law_normal_keeps_members(inner, "id"@);
    law_normal_keeps_members(inner, "started_at"@);
    law_normal_keeps_members(inner, "data_root"@);
    let a = inner.drop_first();
    let b = a.drop_first();
    assert(a[0] == inner[1] && b[0] == inner[2]);
    assert(find_key(inner, "id"@) == Some(inner[0].1));
    assert(find_key(inner, "started_at"@) == Some(inner[1].1));
    assert(find_key(inner, "data_root"@) == Some(inner[2].1));
    lemma_object_plain(inner, MAX_DEPTH - 1);
    lemma_object_plain(doc, MAX_DEPTH as int);
}

/// The header line. It is read as that header, where its time is a common one.
pub fn header_line(m: &SessionMeta) -> (r: String)
    ensures
        r@ == json_printed(
            json_normal(header_document(m.id@, stamp_shown(m.started_at), m.data_root@)),
        ),
        forall|k: int| 0 <= k < r@.len() ==> #[trigger] r@[k] != '\n' && r@[k] != '\r',
        is_common(m.started_at) ==> header_in(r@) == Some(m@),
{
    let started_at = show_stamp(m.started_at);
    proof {
        lemma_header(m.id@, started_at@, m.data_root@);
    }
    object1(
        "session",
        object3(
            "id",
            text(m.id.as_str()),
            "started_at",
            text(started_at.as_str()),
            "data_root",
            text(m.data_root.as_str()),
        ),
    ).to_text()
}

/// A file that holds a header line alone is read as that header and no items.
pub proof fn law_new_session_is_empty(line: Seq<char>, h: SessionMetaV)
    requires
        forall|k: int| 0 <= k < line.len() ==> #[trigger] line[k] != '\n' && line[k] != '\r',
        header_in(line) == Some(h),
    ensures
        replayed(line + seq!['\n']) == Ok::<(SessionMetaV, Seq<ItemV>), Seq<char>>(
            (h, Seq::empty()),
        ),
{
    let none = Seq::<char>::empty();
    law_appended_line_is_the_last(none, line);
    assert(none + line + seq!['\n'] =~= line + seq!['\n']);
    assert(split_on(none, '\n') =~= seq![none]);
    assert(lines_of(none) =~= Seq::<Seq<char>>::empty());
    let all = lines_of(line + seq!['\n']);
    assert(all =~= seq![line]);
    assert(all.drop_first() =~= Seq::<Seq<char>>::empty());
}

/// Appending the line of an item to a file makes what it says that item longer, and changes
/// nothing before it.
pub proof fn law_appended_item_is_replayed(raw: Seq<char>, line: Seq<char>, i: ItemV)
    requires
        raw.len() > 0,
        raw.last() == '\n',
        forall|k: int| 0 <= k < line.len() ==> #[trigger] line[k] != '\n' && line[k] != '\r',
        item_in(line) == Some(i),
    ensures
        replayed(raw + line + seq!['\n']) == match replayed(raw) {
            Ok(p) => Ok::<(SessionMetaV, Seq<ItemV>), Seq<char>>((p.0, p.1.push(i))),
            Err(m) => Err::<(SessionMetaV, Seq<ItemV>), Seq<char>>(m),
        },
{
    law_appended_line_is_the_last(raw, line);
    let before = lines_of(raw);
    let now = lines_of(raw + line + seq!['\n']);
    lemma_split_on_len(raw.drop_last(), '\n');
    assert(split_on(raw, '\n').len() >= 2);
    assert(before.len() >= 1);
    assert(now[0] == before[0]);
    assert(now.drop_first() =~= before.drop_first().push(line));
    assert(before.drop_first().push(line).drop_last() =~= before.drop_first());
}

// Lists

pub open spec fn starts(v: Seq<SessionMetaV>) -> Seq<Moment> {
    v.map_values(|m: SessionMetaV| m.started_at)
}

/// The headers newest first; those of one time stay in their order.
pub open spec fn newest_first(v: Seq<SessionMetaV>) -> Seq<SessionMetaV> {
    newest_order(starts(v), v.len() as int).map_values(|i: int| v[i])
}

fn copy_meta(m: &SessionMeta) -> (r: SessionMeta)
    ensures
        r@ == m@,
{
    SessionMeta {
        id: m.id.clone(),
        started_at: m.started_at,
        data_root: m.data_root.clone(),
    }
}

/// Puts headers newest first.
pub fn list(metas: &Vec<SessionMeta>) -> (r: Vec<SessionMeta>)
    ensures
        metas_view(r@) == newest_first(metas_view(metas@)),
        r@.len() == metas@.len(),
{
    let ghost all = metas_view(metas@);
    let mut times: Vec<Moment> = Vec::new();
    let mut i: usize = 0;
    while i < metas.len()
        invariant
            i <= metas@.len(),
            all == metas_view(metas@),
            times@ == starts(all).take(i as int),
        decreases metas.len() - i,
    {
        assert(all[i as int] == metas@[i as int]@);
        times.push(metas[i].started_at);
        assert(times@ =~= starts(all).take(i + 1));
        i += 1;
    }
    assert(times@ =~= starts(all));
    let order = order_newest(&times);
    let mut out: Vec<SessionMeta> = Vec::new();
    let mut k: usize = 0;
    while k < order.len()
        invariant
            k <= order@.len(),
            all == metas_view(metas@),
            order@.len() == metas@.len(),
            indices(order@) == newest_order(starts(all), all.len() as int),
            forall|j: int| 0 <= j < order@.len() ==> (#[trigger] order@[j]) < metas@.len(),
            metas_view(out@) == newest_first(all).take(k as int),
        decreases order.len() - k,
    {
        assert(indices(order@)[k as int] == order@[k as int]);
        let m = copy_meta(&metas[order[k]]);
        assert(indices(order@).len() == order@.len());
        assert(newest_first(all)[k as int] == m@);
        assert(metas_view(out@.push(m)) =~= metas_view(out@).push(m@));
        assert(metas_view(out@.push(m)) =~= newest_first(all).take(k + 1));
        out.push(m);
        k += 1;
    }
    assert(indices(order@).len() == order@.len());
    assert(newest_first(all).take(k as int) =~= newest_first(all));
    assert(metas_view(out@).len() == out@.len());
    out
}

/// The id of the conversation that was started last.
pub fn latest_id(metas: &Vec<SessionMeta>) -> (r: Option<String>)
    ensures
        opt_view(r) == (if metas@.len() == 0 {
            None
        } else {
            Some(newest_first(metas_view(metas@))[0].id)
        }),
{
    let sorted = list(metas);
    if sorted.len() == 0 {
        None
    } else {
        assert(metas_view(sorted@)[0] == sorted@[0]@);
        Some(sorted[0].id.clone())
    }
}

// Ids

/// One step of the generator behind the suffix.
pub open spec fn shifted(x: u32) -> u32 {
    let a = x ^ (x << 13u32);
    let b = a ^ (a >> 17u32);
    b ^ (b << 5u32)
}

/// A step never leads to zero, from where there is no way on.
pub proof fn law_generator_never_stops(x: u32)
    requires
        x != 0,
    ensures
        shifted(x) != 0,
{
    let a = x ^ (x << 13u32);
    assert(x != 0 ==> (x ^ (x << 13u32)) != 0) by (bit_vector);
    let b = a ^ (a >> 17u32);
    assert(a != 0 ==> (a ^ (a >> 17u32)) != 0) by (bit_vector);
    assert(b != 0 ==> (b ^ (b << 5u32)) != 0) by (bit_vector);
}

/// Two states that differ lead to states that differ.
pub proof fn law_generator_keeps_states_apart(x: u32, y: u32)
    requires
        x != y,
    ensures
        shifted(x) != shifted(y),
{
    let a = x ^ (x << 13u32);
    let c = y ^ (y << 13u32);
    assert(x != y ==> (x ^ (x << 13u32)) != (y ^ (y << 13u32))) by (bit_vector);
    let b = a ^ (a >> 17u32);
    let d = c ^ (c >> 17u32);
    assert(a != c ==> (a ^ (a >> 17u32)) != (c ^ (c >> 17u32))) by (bit_vector);
    assert(b != d ==> (b ^ (b << 5u32)) != (d ^ (d << 5u32))) by (bit_vector);
}

/// The character for a state: a letter or a digit.
pub open spec fn suffix_char(x: u32) -> char {
    let k = x % 36;
    if k < 26 {
        (('a' as u32) + k) as char
    } else {
        (('0' as u32) + (k - 26)) as char
    }
}

/// The suffix that a seed gives.
pub open spec fn suffix_of(seed: u32, n: nat) -> Seq<char>
    decreases n,
{
    if n == 0 {
        Seq::empty()
    } else {
        suffix_of(seed, (n - 1) as nat).push(suffix_char(state_after(seed, n)))
    }
}

/// The state of the generator after `n` steps.
pub open spec fn state_after(seed: u32, n: nat) -> u32
    decreases n,
{
    if n == 0 {
        seed
    } else {
        shifted(state_after(seed, (n - 1) as nat))
    }
}

fn to_suffix_char(x: u32) -> (c: char)
    ensures
        c == suffix_char(x),
{
    let k: u8 = (x % 36) as u8;
    if k < 26 {
        (97 + k) as char
    } else {
        (48 + (k - 26)) as char
    }
}

/// The id of a conversation, from the time as it is stamped and a seed.
pub fn make_session_id(stamp: &str, seed: u32) -> (r: String)
    ensures
        r@ == "mb-"@ + stamp@ + "-"@ + suffix_of(seed, 4),
{
    let mut suffix = String::new();
    let mut x: u32 = seed;
    let mut i: u32 = 0;
    while i < 4
        invariant
            i <= 4,
            x == state_after(seed, i as nat),
            suffix@ == suffix_of(seed, i as nat),
        decreases 4 - i,
    {
        x = x ^ (x << 13u32);
        x = x ^ (x >> 17u32);
        x = x ^ (x << 5u32);
        push_char(&mut suffix, to_suffix_char(x));
        i += 1;
    }
    cat4("mb-", stamp, "-", suffix.as_str())
}

/// The bits of the clock, the process and the counter, mixed.
pub open spec fn mixed(nanos: u32, pid: u32, count: u32) -> u32 {
    nanos ^ ((pid << 13u32) | (pid >> 19u32)) ^ ((count << 24u32) | (count >> 8u32))
}

/// The seed of a suffix; it is not zero.
pub fn seed(nanos: u32, pid: u32, count: u32) -> (r: u32)
    ensures
        r == (if mixed(nanos, pid, count) == 0 {
            0x9E3779B9u32
        } else {
            mixed(nanos, pid, count)
        }),
        r != 0,
{
    let x: u32 = nanos ^ ((pid << 13u32) | (pid >> 19u32)) ^ ((count << 24u32) | (count >> 8u32));
    if x == 0 {
        0x9E3779B9
    } else {
        x
    }
}

/// Two ids of one process at one time are made from bits that differ, as their counts do.
pub proof fn law_counts_keep_seeds_apart(nanos: u32, pid: u32, a: u32, b: u32)
    requires
        a != b,
    ensures
        mixed(nanos, pid, a) != mixed(nanos, pid, b),
{
    assert(a != b ==> (nanos ^ ((pid << 13u32) | (pid >> 19u32)) ^ ((a << 24u32) | (a >> 8u32))) != (
    nanos ^ ((pid << 13u32) | (pid >> 19u32)) ^ ((b << 24u32) | (b >> 8u32)))) by (bit_vector);
}

// Display

/// An age as it is shown.
pub open spec fn age_text(secs: nat) -> Seq<char> {
    if secs < 60 {
        dec(secs) + "s ago"@
    } else if secs < 3600 {
        dec(secs / 60) + "m ago"@
    } else if secs < 86400 {
        dec(secs / 3600) + "h ago"@
    } else {
        dec(secs / 86400) + "d ago"@
    }
}

/// A header as it is shown in a list; `age` is how many seconds ago it was written, and counts as
/// 0 where that lies ahead.
pub fn fmt_meta_line(m: &SessionMeta, age: i64) -> (r: String)
    ensures
        r@ == "  "@ + m.id@ + "  "@ + age_text(
            if age < 0 {
                0
            } else {
                age as nat
            },
        ) + "  "@ + m.data_root@,
{
    let secs: u64 = if age < 0 {
        0
    } else {
        age as u64
    };
    let human = if secs < 60 {
        cat2(decimal(secs).as_str(), "s ago")
    } else if secs < 3600 {
        cat2(decimal(secs / 60).as_str(), "m ago")
    } else if secs < 86400 {
        cat2(decimal(secs / 3600).as_str(), "h ago")
    } else {
        cat2(decimal(secs / 86400).as_str(), "d ago")
    };
    cat6("  ", m.id.as_str(), "  ", human.as_str(), "  ", m.data_root.as_str())
}

} // verus!
