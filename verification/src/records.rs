//! Reading records out of JSON: an object with the fields as members, or a list with the fields in
//! their order.

use crate::json::{
    find_in, find_key, json_normal, lemma_list_view, list_fault, list_in, list_view, opt_json,
    pairs_view, text_fault, text_in, u32_fault, Json, JsonV,
};
use crate::strs::{cat2, chars_of, dec, lemma_views_push, opt_view, same, slice_text, views};
use vstd::prelude::*;

pub mod laws;

verus! {

/// Whether a document can stand for a record of `n` fields.
pub open spec fn is_record(j: JsonV, n: int) -> bool {
    match j {
        JsonV::Object(_) => true,
        JsonV::List(items) => items.len() <= n,
        _ => false,
    }
}

/// The field of a record: the member `key`, or the element at `i`.
pub open spec fn field(j: JsonV, key: Seq<char>, i: int) -> Option<JsonV> {
    match j {
        JsonV::Object(pairs) => find_key(pairs, key),
        JsonV::List(items) => if i < items.len() {
            Some(items[i])
        } else {
            None
        },
        _ => None,
    }
}

/// A text that may be missing, and is empty then; anything but a text fails.
pub open spec fn text_or_missing(o: Option<JsonV>) -> Option<Seq<char>> {
    match o {
        None => Some(Seq::empty()),
        Some(JsonV::Text(s)) => Some(s),
        Some(_) => None,
    }
}

pub fn record(j: &Json, n: usize) -> (r: bool)
    ensures
        r == is_record(j@, n as int),
{
    proof {
        lemma_list_view(*j);
    }
    match j {
        Json::Object(_) => true,
        Json::List(items) => {
            assert(list_view(items@).len() == items@.len());
            items.len() <= n
        },
        _ => false,
    }
}

pub fn field_of<'a>(j: &'a Json, key: &str, i: usize) -> (r: Option<&'a Json>)
    ensures
        opt_json(r) == field(j@, key@, i as int),
{
    proof {
        lemma_list_view(*j);
    }
    match j {
        Json::Object(pairs) => find_in(pairs, key),
        Json::List(items) => {
            assert(list_view(items@).len() == items@.len());
            if i < items.len() {
                Some(&items[i])
            } else {
                None
            }
        },
        _ => None,
    }
}

pub fn text_field(o: Option<&Json>) -> (r: Option<String>)
    ensures
        opt_view(r) == text_or_missing(opt_json(o)),
{
    match o {
        None => Some(String::new()),
        Some(j) => match j {
            Json::Text(s) => Some(s.clone()),
            _ => None,
        },
    }
}

/// A text that may be missing or null, and is none then; anything but a text fails.
pub open spec fn opt_text_reads(o: Option<JsonV>) -> bool {
    match o {
        None => true,
        Some(JsonV::Null) => true,
        Some(JsonV::Text(_)) => true,
        Some(_) => false,
    }
}

pub fn opt_text_field(o: Option<&Json>) -> (r: Option<Option<String>>)
    ensures
        match r {
            Some(t) => opt_text_reads(opt_json(o)) && opt_view(t) == text_in(opt_json(o)),
            None => !opt_text_reads(opt_json(o)),
        },
{
    match o {
        None => Some(None),
        Some(j) => match j {
            Json::Null => Some(None),
            Json::Text(s) => Some(Some(s.clone())),
            _ => None,
        },
    }
}

/// A flag that may be missing, and is not set then; anything but a flag fails.
pub open spec fn flag_or_missing(o: Option<JsonV>) -> Option<bool> {
    match o {
        None => Some(false),
        Some(JsonV::Bool(b)) => Some(b),
        Some(_) => None,
    }
}

pub fn flag_field(o: Option<&Json>) -> (r: Option<bool>)
    ensures
        r == flag_or_missing(opt_json(o)),
{
    match o {
        None => Some(false),
        Some(j) => match j {
            Json::Bool(b) => Some(*b),
            _ => None,
        },
    }
}

/// The texts of a list, where every element is one.
pub open spec fn texts_of(items: Seq<JsonV>) -> Option<Seq<Seq<char>>>
    decreases items.len(),
{
    if items.len() == 0 {
        Some(Seq::empty())
    } else {
        match (texts_of(items.drop_last()), items.last()) {
            (Some(before), JsonV::Text(s)) => Some(before.push(s)),
            _ => None,
        }
    }
}

/// A list of texts that may be missing, and is empty then.
pub open spec fn texts_or_missing(o: Option<JsonV>) -> Option<Seq<Seq<char>>> {
    match o {
        None => Some(Seq::empty()),
        Some(JsonV::List(items)) => texts_of(items),
        Some(_) => None,
    }
}

proof fn lemma_texts_prefix(items: Seq<JsonV>, n: int)
    requires
        0 <= n <= items.len(),
        texts_of(items.take(n)) is None,
    ensures
        texts_of(items) is None,
    decreases items.len() - n,
{
    if n < items.len() {
        assert(items.take(n + 1).drop_last() =~= items.take(n));
        lemma_texts_prefix(items, n + 1);
    } else {
        assert(items.take(n) =~= items);
    }
}

pub fn texts_field(o: Option<&Json>) -> (r: Option<Vec<String>>)
    ensures
        match r {
            Some(v) => texts_or_missing(opt_json(o)) == Some(views(v@)),
            None => texts_or_missing(opt_json(o)) is None,
        },
{
    let mut out: Vec<String> = Vec::new();
    assert(views(out@) =~= Seq::empty());
    match o {
        None => Some(out),
        Some(j) => match j.as_array() {
            None => None,
            Some(items) => {
                let ghost all = list_view(items@);
                let mut i: usize = 0;
                while i < items.len()
                    invariant
                        i <= items@.len(),
                        all == list_view(items@),
                        list_in(opt_json(o)) == Some(all),
                        texts_of(all.take(i as int)) == Some(views(out@)),
                    decreases items.len() - i,
                {
                    assert(all.take(i + 1).drop_last() =~= all.take(i as int));
                    assert(all[i as int] == items@[i as int]@);
                    match items[i].as_str() {
                        None => {
                            proof {
                                lemma_texts_prefix(all, i + 1);
                            }
                            return None;
                        },
                        Some(s) => {
                            let t = s.to_owned();
                            proof {
                                lemma_views_push(out@, t);
                            }
                            out.push(t);
                        },
                    }
                    i += 1;
                }
                assert(all.take(i as int) =~= all);
                Some(out)
            },
        },
    }
}

// Why a document is no record

/// What a field is read as: a text, a list, or a number within `u32` that may be null.
#[derive(Debug, Clone, Copy, PartialEq, Eq, Structural)]
pub enum FieldKind {
    Text,
    List,
    OptU32,
}

/// What is said against the value of a field.
pub open spec fn value_fault(kind: FieldKind, j: JsonV) -> Option<Seq<char>> {
    match kind {
        FieldKind::Text => text_fault(json_normal(j)),
        FieldKind::List => list_fault(json_normal(j)),
        FieldKind::OptU32 => if j is Null {
            None
        } else {
            u32_fault(json_normal(j))
        },
    }
}

pub fn find_value_fault(kind: FieldKind, j: &Json) -> (r: Option<String>)
    ensures
        opt_view(r) == value_fault(kind, j@),
{
    match kind {
        FieldKind::Text => j.text_fault(),
        FieldKind::List => j.list_fault(),
        FieldKind::OptU32 => if j.is_null() {
            None
        } else {
            j.u32_fault()
        },
    }
}

pub open spec fn said(o: Option<Seq<char>>) -> Seq<char> {
    match o {
        Some(m) => m,
        None => Seq::empty(),
    }
}

pub open spec fn without_end(s: Seq<char>, n: int) -> Seq<char> {
    if s.len() >= n {
        s.take(s.len() - n)
    } else {
        s
    }
}

/// What is said against a document that is neither an object nor a list where a record called `what`
/// is expected: as against one that is no text or no list, but for what is expected.
pub open spec fn record_fault(j: JsonV, what: Seq<char>) -> Seq<char> {
    if j is Text {
        without_end(said(list_fault(json_normal(j))), "a sequence"@.len() as int) + what
    } else {
        without_end(said(text_fault(json_normal(j))), "a string"@.len() as int) + what
    }
}

fn cut_end(s: Option<String>, end: &str) -> (r: String)
    ensures
        r@ == without_end(said(opt_view(s)), end@.len() as int),
{
    match s {
        Some(t) => {
            let v = chars_of(t.as_str());
            let n = chars_of(end).len();
            if v.len() >= n {
                let r = slice_text(&v, 0, v.len() - n);
                assert(r@ =~= t@.take(t@.len() - n));
                r
            } else {
                t
            }
        },
        None => {
            let r = String::new();
            assert(r@ =~= without_end(Seq::empty(), end@.len() as int));
            r
        },
    }
}

pub fn find_record_fault(j: &Json, what: &str) -> (r: String)
    ensures
        r@ == record_fault(j@, what@),
{
    let head = match j {
        Json::Text(_) => cut_end(j.list_fault(), "a sequence"),
        _ => cut_end(j.text_fault(), "a string"),
    };
    cat2(head.as_str(), what)
}

/// What is said against a list of `n` elements that is longer than a record.
pub open spec fn long_fault(n: nat) -> Seq<char> {
    "invalid length "@ + dec(n) + ", expected fewer elements in array"@
}

/// The kind of the field with a name, of names with their kinds.
pub open spec fn kind_in(fields: Seq<(Seq<char>, FieldKind)>, name: Seq<char>) -> Option<FieldKind>
    decreases fields.len(),
{
    if fields.len() == 0 {
        None
    } else if fields[0].0 == name {
        Some(fields[0].1)
    } else {
        kind_in(fields.drop_first(), name)
    }
}

/// What is said against the first member that is no such field; members with other names pass.
pub open spec fn members_fault(
    fields: Seq<(Seq<char>, FieldKind)>,
    pairs: Seq<(Seq<char>, JsonV)>,
) -> Option<Seq<char>>
    decreases pairs.len(),
{
    if pairs.len() == 0 {
        None
    } else {
        match kind_in(fields, pairs[0].0) {
            Some(k) => match value_fault(k, pairs[0].1) {
                Some(m) => Some(m),
                None => members_fault(fields, pairs.drop_first()),
            },
            None => members_fault(fields, pairs.drop_first()),
        }
    }
}

/// What is said against the first element from `i` on that is no such field.
pub open spec fn elements_fault(
    fields: Seq<(Seq<char>, FieldKind)>,
    items: Seq<JsonV>,
    i: int,
) -> Option<Seq<char>>
    decreases items.len() - i,
{
    if i < 0 || i >= items.len() || i >= fields.len() {
        None
    } else {
        match value_fault(fields[i].1, items[i]) {
            Some(m) => Some(m),
            None => elements_fault(fields, items, i + 1),
        }
    }
}

pub open spec fn fields_view(v: Seq<(&'static str, FieldKind)>) -> Seq<(Seq<char>, FieldKind)> {
    v.map_values(|p: (&'static str, FieldKind)| (p.0@, p.1))
}

fn find_kind(fields: &Vec<(&'static str, FieldKind)>, name: &str) -> (r: Option<FieldKind>)
    ensures
        r == kind_in(fields_view(fields@), name@),
{
    let ghost all = fields_view(fields@);
    let mut i: usize = 0;
    assert(all.skip(0) =~= all);
    while i < fields.len()
        invariant
            i <= fields@.len(),
            all == fields_view(fields@),
            kind_in(all, name@) == kind_in(all.skip(i as int), name@),
        decreases fields.len() - i,
    {
        assert(all.skip(i as int).drop_first() =~= all.skip(i + 1));
        assert(all[i as int] == (fields@[i as int].0@, fields@[i as int].1));
        if same(fields[i].0, name) {
            return Some(fields[i].1);
        }
        i += 1;
    }
    None
}

pub fn find_members_fault(
    fields: &Vec<(&'static str, FieldKind)>,
    pairs: &Vec<(String, Json)>,
) -> (r: Option<String>)
    ensures
        opt_view(r) == members_fault(fields_view(fields@), pairs_view(pairs@)),
{
    let ghost f = fields_view(fields@);
    let ghost all = pairs_view(pairs@);
    let mut i: usize = 0;
    assert(all.skip(0) =~= all);
    while i < pairs.len()
        invariant
            i <= pairs@.len(),
            f == fields_view(fields@),
            all == pairs_view(pairs@),
            members_fault(f, all) == members_fault(f, all.skip(i as int)),
        decreases pairs.len() - i,
    {
        assert(all.skip(i as int).drop_first() =~= all.skip(i + 1));
        assert(all[i as int] == (pairs@[i as int].0@, pairs@[i as int].1@));
        match find_kind(fields, pairs[i].0.as_str()) {
            Some(k) => {
                let why = find_value_fault(k, &pairs[i].1);
                if why.is_some() {
                    return why;
                }
            },
            None => {},
        }
        i += 1;
    }
    None
}

pub fn find_elements_fault(
    fields: &Vec<(&'static str, FieldKind)>,
    items: &Vec<Json>,
) -> (r: Option<String>)
    ensures
        opt_view(r) == elements_fault(fields_view(fields@), list_view(items@), 0),
{
    let ghost f = fields_view(fields@);
    let ghost all = list_view(items@);
    let mut i: usize = 0;
    while i < items.len() && i < fields.len()
        invariant
            i <= items@.len(),
            f == fields_view(fields@),
            all == list_view(items@),
            elements_fault(f, all, 0) == elements_fault(f, all, i as int),
        decreases items.len() - i,
    {
        assert(all[i as int] == items@[i as int]@);
        assert(f[i as int].1 == fields@[i as int].1);
        let why = find_value_fault(fields[i].1, &items[i]);
        if why.is_some() {
            return why;
        }
        i += 1;
    }
    None
}

} // verus!
