//! JSON documents as plain values, with the parser and the printer of `serde_json` at the edge.

use crate::strs::{
    chars_of, dec, opt_view, parse_u64, parsed_nat, replace, replaced, same, split, split_on, text_lt, views,
};
use vstd::prelude::*;

pub mod laws;

verus! {

/// A JSON number: its text, and its value where it is an integer.
#[derive(Debug)]
pub struct Num {
    pub text: String,
    /// The value, where it is an integer that `i64` holds.
    pub signed: Option<i64>,
    /// The value, where it is an integer that `u64` holds.
    pub unsigned: Option<u64>,
    /// The value cut to an integer, toward zero, and held within `i64`.
    pub whole: i64,
}

#[verifier::ext_equal]
pub struct NumV {
    pub text: Seq<char>,
    pub signed: Option<i64>,
    pub unsigned: Option<u64>,
    pub whole: i64,
}

impl View for Num {
    type V = NumV;

    open spec fn view(&self) -> NumV {
        NumV { text: self.text@, signed: self.signed, unsigned: self.unsigned, whole: self.whole }
    }
}

/// A JSON document. The members of an object keep the order in which they were put in.
#[derive(Debug)]
pub enum Json {
    Null,
    Bool(bool),
    Number(Num),
    Text(String),
    List(Vec<Json>),
    Object(Vec<(String, Json)>),
}

/// What a JSON document says.
#[verifier::ext_equal]
pub enum JsonV {
    Null,
    Bool(bool),
    Number(NumV),
    Text(Seq<char>),
    List(Seq<JsonV>),
    Object(Seq<(Seq<char>, JsonV)>),
}

pub open spec fn json_view(j: Json) -> JsonV
    decreases j,
{
    match j {
        Json::Null => JsonV::Null,
        Json::Bool(b) => JsonV::Bool(b),
        Json::Number(n) => JsonV::Number(n@),
        Json::Text(s) => JsonV::Text(s@),
        Json::List(v) => JsonV::List(
            Seq::new(
                v@.len(),
                |i: int|
                    if 0 <= i < v@.len() {
                        json_view(v@[i])
                    } else {
                        arbitrary()
                    },
            ),
        ),
        Json::Object(v) => JsonV::Object(
            Seq::new(
                v@.len(),
                |i: int|
                    if 0 <= i < v@.len() {
                        (v@[i].0@, json_view(v@[i].1))
                    } else {
                        arbitrary()
                    },
            ),
        ),
    }
}

impl View for Json {
    type V = JsonV;

    open spec fn view(&self) -> JsonV {
        json_view(*self)
    }
}

pub open spec fn list_view(v: Seq<Json>) -> Seq<JsonV> {
    v.map_values(|j: Json| j@)
}

pub open spec fn pairs_view(v: Seq<(String, Json)>) -> Seq<(Seq<char>, JsonV)> {
    v.map_values(|p: (String, Json)| (p.0@, p.1@))
}

pub proof fn lemma_list_view(j: Json)
    ensures
        match j {
            Json::List(v) => j@ == JsonV::List(list_view(v@)),
            Json::Object(v) => j@ == JsonV::Object(pairs_view(v@)),
            _ => true,
        },
{
    match j {
        Json::List(v) => {
            assert(j@->List_0 =~= list_view(v@));
        },
        Json::Object(v) => {
            assert(j@->Object_0 =~= pairs_view(v@));
        },
        _ => {},
    }
}

pub proof fn lemma_list_push(v: Seq<Json>, j: Json)
    ensures
        list_view(v.push(j)) == list_view(v).push(j@),
{
    assert(list_view(v.push(j)) =~= list_view(v).push(j@));
}

pub open spec fn opt_json(o: Option<&Json>) -> Option<JsonV> {
    match o {
        Some(j) => Some(j@),
        None => None,
    }
}

// The edge

#[verifier::external_type_specification]
#[verifier::external_body]
pub struct ExValue(serde_json::Value);

/// Names what a `serde_json::Value` holds.
pub uninterp spec fn json_content(v: serde_json::Value) -> JsonV;

/// Names what `serde_json::from_str` makes of a text: the document, or the message of its error. Of
/// members with one name the document holds the last one alone.
pub uninterp spec fn json_parsed(text: Seq<char>) -> Result<JsonV, Seq<char>>;

/// The members in the order of their keys, with one more put in: in the place of the one with its
/// key, if there is one.
pub open spec fn placed(
    pairs: Seq<(Seq<char>, JsonV)>,
    key: Seq<char>,
    value: JsonV,
) -> Seq<(Seq<char>, JsonV)>
    decreases pairs.len(),
{
    if pairs.len() == 0 {
        seq![(key, value)]
    } else if pairs[0].0 == key {
        seq![(key, value)] + pairs.drop_first()
    } else if text_lt(key, pairs[0].0) {
        seq![(key, value)] + pairs
    } else {
        seq![pairs[0]] + placed(pairs.drop_first(), key, value)
    }
}

/// The members in the order of their keys; of those with one key the last stays.
pub open spec fn ordered(pairs: Seq<(Seq<char>, JsonV)>) -> Seq<(Seq<char>, JsonV)>
    decreases pairs.len(),
{
    if pairs.len() == 0 {
        Seq::empty()
    } else {
        placed(ordered(pairs.drop_last()), pairs.last().0, pairs.last().1)
    }
}

/// Whether a number is an integer of at most 53 bits, written in decimal digits. Its text is read
/// as that number.
pub open spec fn small_number(n: NumV) -> bool {
    n.unsigned matches Some(u) && u <= 0x20_0000_0000_0000 && JsonV::Number(n) == nat_view(u)
}

/// What a `serde_json::Value` made of a document holds: the members of an object in the order of
/// their keys, one for each key, and a number as its text is read.
pub open spec fn json_normal(j: JsonV) -> JsonV
    decreases j,
{
    match j {
        JsonV::Number(n) => if small_number(n) {
            j
        } else {
            match json_parsed(n.text) {
                Ok(v) => v,
                Err(_) => JsonV::Null,
            }
        },
        JsonV::List(items) => JsonV::List(
            Seq::new(
                items.len(),
                |i: int|
                    if 0 <= i < items.len() {
                        json_normal(items[i])
                    } else {
                        arbitrary()
                    },
            ),
        ),
        JsonV::Object(pairs) => JsonV::Object(ordered(normal_members(pairs))),
        other => other,
    }
}

pub open spec fn normal_members(pairs: Seq<(Seq<char>, JsonV)>) -> Seq<(Seq<char>, JsonV)>
    decreases pairs,
{
    if pairs.len() == 0 {
        Seq::empty()
    } else {
        seq![(pairs[0].0, json_normal(pairs[0].1))] + normal_members(pairs.drop_first())
    }
}

/// Whether a document holds integers for numbers, and lists and objects at most `depth` deep.
pub open spec fn json_plain(j: JsonV, depth: int) -> bool
    decreases j,
{
    match j {
        JsonV::Number(n) => n.signed is Some || n.unsigned is Some,
        JsonV::List(items) => depth > 0 && forall|i: int|
            0 <= i < items.len() ==> json_plain(#[trigger] items[i], depth - 1),
        JsonV::Object(pairs) => depth > 0 && forall|i: int|
            0 <= i < pairs.len() ==> json_plain((#[trigger] pairs[i]).1, depth - 1),
        _ => true,
    }
}

/// How deep `serde_json` reads.
pub const MAX_DEPTH: u8 = 127;

/// A text is read as the document, where no number of it is a float and nothing lies too deep.
pub open spec fn reads_back(text: Seq<char>, j: JsonV) -> bool {
    json_plain(j, MAX_DEPTH as int) ==> json_parsed(text) == Ok::<JsonV, Seq<char>>(j)
}

/// Names the text that `serde_json::to_string` prints.
pub uninterp spec fn json_printed(j: JsonV) -> Seq<char>;

/// Names the text that `serde_json::to_string_pretty` prints.
pub uninterp spec fn json_pretty(j: JsonV) -> Seq<char>;

/// Parses a text with `serde_json::from_str`: the outcome depends on the text alone.
#[verifier::external_body]
fn read_value(text: &str) -> (r: Result<serde_json::Value, String>)
    ensures
        match r {
            Ok(v) => json_parsed(text@) == Ok::<JsonV, Seq<char>>(json_content(v)),
            Err(m) => json_parsed(text@) == Err::<JsonV, Seq<char>>(m@),
        },
{
    serde_json::from_str::<serde_json::Value>(text).map_err(|e| e.to_string())
}

/// Names what `serde_json::from_slice` makes of bytes: the document, or the message of its error.
pub uninterp spec fn json_bytes_parsed(bytes: Seq<u8>) -> Result<JsonV, Seq<char>>;

/// Names what `toml::from_str` makes of a text, taken as a JSON document: the document, or the
/// message of its error.
pub uninterp spec fn toml_parsed(text: Seq<char>) -> Result<JsonV, Seq<char>>;

/// Parses bytes with `serde_json::from_slice`: the outcome depends on the bytes alone.
#[verifier::external_body]
fn read_value_bytes(bytes: &Vec<u8>) -> (r: Result<serde_json::Value, String>)
    ensures
        match r {
            Ok(v) => json_bytes_parsed(bytes@) == Ok::<JsonV, Seq<char>>(json_content(v)),
            Err(m) => json_bytes_parsed(bytes@) == Err::<JsonV, Seq<char>>(m@),
        },
{
    serde_json::from_slice::<serde_json::Value>(bytes).map_err(|e| e.to_string())
}

/// Parses a TOML text into a `serde_json::Value` with `toml::from_str`: the outcome depends on the
/// text alone.
#[verifier::external_body]
fn read_toml(text: &str) -> (r: Result<serde_json::Value, String>)
    ensures
        match r {
            Ok(v) => toml_parsed(text@) == Ok::<JsonV, Seq<char>>(json_content(v)),
            Err(m) => toml_parsed(text@) == Err::<JsonV, Seq<char>>(m@),
        },
{
    toml::from_str::<serde_json::Value>(text).map_err(|e| e.to_string())
}

/// Hands out what a `serde_json::Value` holds, one variant for one variant.
#[verifier::external_body]
fn from_value(v: serde_json::Value) -> (r: Json)
    ensures
        r@ == json_content(v),
{
    match v {
        serde_json::Value::Null => Json::Null,
        serde_json::Value::Bool(b) => Json::Bool(b),
        serde_json::Value::Number(n) => Json::Number(
            Num { text: n.to_string(), signed: n.as_i64(), unsigned: n.as_u64(), whole: n.as_f64().map_or(0, |f| f as i64) },
        ),
        serde_json::Value::String(s) => Json::Text(s),
        serde_json::Value::Array(a) => Json::List(a.into_iter().map(from_value).collect()),
        serde_json::Value::Object(m) => Json::Object(m.into_iter().map(|(k, v)| (k, from_value(v))).collect()),
    }
}

/// Makes a `serde_json::Value` of a document, one variant for one variant; a number goes by its
/// text. An object goes into a `serde_json::Map`, which holds one value for each key and walks
/// them in the order of the keys.
#[verifier::external_body]
fn to_value(j: &Json) -> (r: serde_json::Value)
    ensures
        json_content(r) == json_normal(j@),
{
    match j {
        Json::Null => serde_json::Value::Null,
        Json::Bool(b) => serde_json::Value::Bool(*b),
        Json::Number(n) => serde_json::from_str(&n.text).unwrap_or_default(),
        Json::Text(s) => serde_json::Value::String(s.clone()),
        Json::List(a) => serde_json::Value::Array(a.iter().map(to_value).collect()),
        Json::Object(m) => serde_json::Value::Object(m.iter().map(|(k, v)| (k.clone(), to_value(v))).collect()),
    }
}

/// Prints a value with `Value`'s `Display`, which prints what `serde_json::to_string` does: on one
/// line, and so that `serde_json::from_str` reads the value back, where no number is a float (which
/// may come back changed in its last digit) and nothing lies deeper than it reads.
#[verifier::external_body]
fn value_text(v: &serde_json::Value) -> (r: String)
    ensures
        r@ == json_printed(json_content(*v)),
        forall|k: int| 0 <= k < r@.len() ==> #[trigger] r@[k] != '\n' && r@[k] != '\r',
        reads_back(r@, json_content(*v)),
{
    v.to_string()
}

/// Prints a value with `serde_json::to_string_pretty`, which does not fail on a `Value`, so that
/// `serde_json::from_str` reads it back under the same conditions as the text on one line.
#[verifier::external_body]
fn value_pretty(v: &serde_json::Value) -> (r: String)
    ensures
        r@ == json_pretty(json_content(*v)),
        reads_back(r@, json_content(*v)),
{
    serde_json::to_string_pretty(v).unwrap_or_default()
}

// Why a value is not what it is read as

/// Names what `serde_json::from_value` says of a value that it does not read as a `String`.
pub uninterp spec fn text_fault(j: JsonV) -> Option<Seq<char>>;

/// Names what `serde_json::from_value` says of a value that it does not read as a list of values.
pub uninterp spec fn list_fault(j: JsonV) -> Option<Seq<char>>;

/// Names what `serde_json::from_value` says of a value that it does not read as a `u32`.
pub uninterp spec fn u32_fault(j: JsonV) -> Option<Seq<char>>;

/// Reads a value as a `String` with `serde_json::from_value` and hands out the message of its error,
/// which there is where the value is no text.
#[verifier::external_body]
fn no_text(v: serde_json::Value) -> (r: Option<String>)
    ensures
        opt_view(r) == text_fault(json_content(v)),
        r is None <==> json_content(v) is Text,
{
    serde_json::from_value::<String>(v).err().map(|e| e.to_string())
}

/// Reads a value as a list of values with `serde_json::from_value` and hands out the message of its
/// error, which there is where the value is no list.
#[verifier::external_body]
fn no_list(v: serde_json::Value) -> (r: Option<String>)
    ensures
        opt_view(r) == list_fault(json_content(v)),
        r is None <==> json_content(v) is List,
{
    serde_json::from_value::<Vec<serde_json::Value>>(v).err().map(|e| e.to_string())
}

/// Reads a value as a `u32` with `serde_json::from_value` and hands out the message of its error,
/// which there is where the value is no number in its range.
#[verifier::external_body]
fn no_u32(v: serde_json::Value) -> (r: Option<String>)
    ensures
        opt_view(r) == u32_fault(json_content(v)),
        r is None <==> (nat_in(Some(json_content(v))) matches Some(n) && n <= u32::MAX),
{
    serde_json::from_value::<u32>(v).err().map(|e| e.to_string())
}

// Objects in order

/// The value of the last member with this key.
pub open spec fn last_key(pairs: Seq<(Seq<char>, JsonV)>, key: Seq<char>) -> Option<JsonV>
    decreases pairs.len(),
{
    if pairs.len() == 0 {
        None
    } else if pairs.last().0 == key {
        Some(pairs.last().1)
    } else {
        last_key(pairs.drop_last(), key)
    }
}

proof fn lemma_placed(pairs: Seq<(Seq<char>, JsonV)>, key: Seq<char>, value: JsonV, k: Seq<char>)
    ensures
        find_key(placed(pairs, key, value), k) == (if k == key {
            Some(value)
        } else {
            find_key(pairs, k)
        }),
    decreases pairs.len(),
{
    let now = placed(pairs, key, value);
    if pairs.len() == 0 {
        assert(now.drop_first() =~= pairs);
    } else if pairs[0].0 == key {
        assert(now.drop_first() =~= pairs.drop_first());
    } else if text_lt(key, pairs[0].0) {
        assert(now.drop_first() =~= pairs);
    } else {
        lemma_placed(pairs.drop_first(), key, value, k);
        assert(now.drop_first() =~= placed(pairs.drop_first(), key, value));
    }
}

/// Putting the members in order keeps, under each key, the last value.
pub proof fn law_order_keeps_the_last(pairs: Seq<(Seq<char>, JsonV)>, k: Seq<char>)
    ensures
        find_key(ordered(pairs), k) == last_key(pairs, k),
    decreases pairs.len(),
{
    if pairs.len() > 0 {
        law_order_keeps_the_last(pairs.drop_last(), k);
        lemma_placed(ordered(pairs.drop_last()), pairs.last().0, pairs.last().1, k);
    }
}

/// Whether no two members have one key.
pub open spec fn distinct_keys(pairs: Seq<(Seq<char>, JsonV)>) -> bool {
    forall|i: int, j: int|
        0 <= i < j < pairs.len() ==> (#[trigger] pairs[i]).0 != (#[trigger] pairs[j]).0
}

/// A member with a new key goes in between the others.
proof fn lemma_placed_at(pairs: Seq<(Seq<char>, JsonV)>, key: Seq<char>, value: JsonV) -> (p: int)
    requires
        forall|i: int| 0 <= i < pairs.len() ==> (#[trigger] pairs[i]).0 != key,
    ensures
        0 <= p <= pairs.len(),
        placed(pairs, key, value) == pairs.insert(p, (key, value)),
    decreases pairs.len(),
{
    if pairs.len() == 0 || text_lt(key, pairs[0].0) {
        assert(pairs.len() > 0 ==> pairs[0].0 != key);
        assert(placed(pairs, key, value) =~= pairs.insert(0, (key, value)));
        0
    } else {
        let rest = pairs.drop_first();
        assert forall|i: int| 0 <= i < rest.len() implies (#[trigger] rest[i]).0 != key by {
            assert(pairs[i + 1].0 != key);
        }
        let p = lemma_placed_at(rest, key, value);
        assert(pairs[0].0 != key);
        assert(placed(pairs, key, value) =~= pairs.insert(p + 1, (key, value)));
        p + 1
    }
}

/// Members with distinct keys keep them when they are put in order.
pub proof fn lemma_ordered_distinct(pairs: Seq<(Seq<char>, JsonV)>)
    requires
        distinct_keys(pairs),
    ensures
        distinct_keys(ordered(pairs)),
        forall|i: int|
            0 <= i < ordered(pairs).len() ==> exists|j: int|
                0 <= j < pairs.len() && (#[trigger] pairs[j]).0 == (#[trigger] ordered(pairs)[i]).0,
    decreases pairs.len(),
{
    if pairs.len() > 0 {
        let n = pairs.len() - 1;
        let rest = pairs.drop_last();
        assert forall|a: int, b: int| 0 <= a < b < rest.len() implies (#[trigger] rest[a]).0 != (
        #[trigger] rest[b]).0 by {
            assert(pairs[a].0 != pairs[b].0);
        }
        lemma_ordered_distinct(rest);
        let before = ordered(rest);
        assert forall|i: int| 0 <= i < before.len() implies (#[trigger] before[i]).0
            != pairs[n].0 by {
            let j = choose|j: int| 0 <= j < rest.len() && (#[trigger] rest[j]).0 == before[i].0;
            assert(pairs[j].0 != pairs[n].0);
        }
        let p = lemma_placed_at(before, pairs[n].0, pairs[n].1);
        let now = ordered(pairs);
        assert(now == before.insert(p, pairs[n]));
        assert forall|i: int| 0 <= i < now.len() implies exists|j: int|
            0 <= j < pairs.len() && (#[trigger] pairs[j]).0 == (#[trigger] now[i]).0 by {
            if i == p {
                assert(pairs[n].0 == now[i].0);
            } else {
                let k = if i < p {
                    i
                } else {
                    i - 1
                };
                assert(now[i] == before[k]);
                let j = choose|j: int| 0 <= j < rest.len() && (#[trigger] rest[j]).0 == before[k].0;
                assert(pairs[j].0 == now[i].0);
            }
        }
        assert forall|a: int, b: int| 0 <= a < b < now.len() implies (#[trigger] now[a]).0 != (
        #[trigger] now[b]).0 by {
            let x = if a < p {
                a
            } else {
                a - 1
            };
            let y = if b < p {
                b
            } else {
                b - 1
            };
            if a == p {
                assert(now[b] == before[y]);
            } else if b == p {
                assert(now[a] == before[x]);
            } else {
                assert(now[a] == before[x] && now[b] == before[y]);
                assert(before[x].0 != before[y].0);
            }
        }
    }
}

pub proof fn lemma_find_index(pairs: Seq<(Seq<char>, JsonV)>, k: Seq<char>, i: int)
    requires
        distinct_keys(pairs),
        0 <= i < pairs.len(),
        pairs[i].0 == k,
    ensures
        find_key(pairs, k) == Some(pairs[i].1),
    decreases pairs.len(),
{
    if i > 0 {
        let rest = pairs.drop_first();
        assert(pairs[0].0 != pairs[i].0);
        assert forall|a: int, b: int| 0 <= a < b < rest.len() implies (#[trigger] rest[a]).0 != (
        #[trigger] rest[b]).0 by {
            assert(pairs[a + 1].0 != pairs[b + 1].0);
        }
        lemma_find_index(rest, k, i - 1);
    }
}

pub proof fn lemma_find_none(pairs: Seq<(Seq<char>, JsonV)>, k: Seq<char>)
    requires
        forall|i: int| 0 <= i < pairs.len() ==> (#[trigger] pairs[i]).0 != k,
    ensures
        find_key(pairs, k) is None,
    decreases pairs.len(),
{
    if pairs.len() > 0 {
        assert(pairs[0].0 != k);
        assert forall|i: int| 0 <= i < pairs.drop_first().len() implies (
        #[trigger] pairs.drop_first()[i]).0 != k by {
            assert(pairs[i + 1].0 != k);
        }
        lemma_find_none(pairs.drop_first(), k);
    }
}

/// Where every key occurs once, the first member with a key is the last one.
pub proof fn lemma_last_is_first(pairs: Seq<(Seq<char>, JsonV)>, k: Seq<char>)
    requires
        distinct_keys(pairs),
    ensures
        last_key(pairs, k) == find_key(pairs, k),
    decreases pairs.len(),
{
    if pairs.len() > 0 {
        let n = pairs.len() - 1;
        let rest = pairs.drop_last();
        if pairs.last().0 == k {
            lemma_find_index(pairs, k, n);
        } else {
            assert forall|a: int, b: int| 0 <= a < b < rest.len() implies (#[trigger] rest[a]).0
                != (#[trigger] rest[b]).0 by {
                assert(pairs[a].0 != pairs[b].0);
            }
            lemma_last_is_first(rest, k);
            if exists|i: int| 0 <= i < rest.len() && (#[trigger] rest[i]).0 == k {
                let i = choose|i: int| 0 <= i < rest.len() && (#[trigger] rest[i]).0 == k;
                lemma_find_index(rest, k, i);
                lemma_find_index(pairs, k, i);
            } else {
                lemma_find_none(rest, k);
                assert forall|i: int| 0 <= i < pairs.len() implies (#[trigger] pairs[i]).0 != k by {
                    if i < n {
                        assert(rest[i].0 != k);
                    }
                }
                lemma_find_none(pairs, k);
            }
        }
    }
}

pub open spec fn opt_normal(o: Option<JsonV>) -> Option<JsonV> {
    match o {
        Some(j) => Some(json_normal(j)),
        None => None,
    }
}

proof fn lemma_normal_members(pairs: Seq<(Seq<char>, JsonV)>, k: Seq<char>)
    ensures
        find_key(normal_members(pairs), k) == opt_normal(find_key(pairs, k)),
    decreases pairs.len(),
{
    if pairs.len() > 0 {
        lemma_normal_members(pairs.drop_first(), k);
        assert(normal_members(pairs).drop_first() =~= normal_members(pairs.drop_first()));
    }
}

proof fn lemma_normal_keys(pairs: Seq<(Seq<char>, JsonV)>)
    ensures
        normal_members(pairs).len() == pairs.len(),
        forall|i: int|
            0 <= i < pairs.len() ==> (#[trigger] normal_members(pairs)[i]) == (
                pairs[i].0,
                json_normal(pairs[i].1),
            ),
    decreases pairs.len(),
{
    if pairs.len() > 0 {
        lemma_normal_keys(pairs.drop_first());
        assert forall|i: int| 0 <= i < pairs.len() implies (#[trigger] normal_members(pairs)[i])
            == (pairs[i].0, json_normal(pairs[i].1)) by {
            if i > 0 {
                assert(normal_members(pairs)[i] == normal_members(pairs.drop_first())[i - 1]);
                assert(pairs.drop_first()[i - 1] == pairs[i]);
            }
        }
    }
}

/// What a value made of an object with distinct keys has under a key is what a value made of the
/// member holds.
pub proof fn law_normal_keeps_members(pairs: Seq<(Seq<char>, JsonV)>, k: Seq<char>)
    requires
        distinct_keys(pairs),
    ensures
        member(json_normal(JsonV::Object(pairs)), k) == opt_normal(find_key(pairs, k)),
{
    let m = normal_members(pairs);
    lemma_normal_keys(pairs);
    law_order_keeps_the_last(m, k);
    assert forall|a: int, b: int| 0 <= a < b < m.len() implies (#[trigger] m[a]).0 != (
    #[trigger] m[b]).0 by {
        assert(pairs[a].0 != pairs[b].0);
    }
    lemma_last_is_first(m, k);
    lemma_normal_members(pairs, k);
}

proof fn lemma_placed_plain(
    pairs: Seq<(Seq<char>, JsonV)>,
    key: Seq<char>,
    value: JsonV,
    depth: int,
)
    requires
        forall|i: int| 0 <= i < pairs.len() ==> json_plain((#[trigger] pairs[i]).1, depth),
        json_plain(value, depth),
    ensures
        forall|i: int|
            0 <= i < placed(pairs, key, value).len() ==> json_plain(
                (#[trigger] placed(pairs, key, value)[i]).1,
                depth,
            ),
    decreases pairs.len(),
{
    let now = placed(pairs, key, value);
    if pairs.len() > 0 {
        let rest = pairs.drop_first();
        assert forall|i: int| 0 <= i < rest.len() implies json_plain(
            (#[trigger] rest[i]).1,
            depth,
        ) by {
            assert(rest[i] == pairs[i + 1]);
        }
        lemma_placed_plain(rest, key, value, depth);
        assert forall|i: int| 0 <= i < now.len() implies json_plain(
            (#[trigger] now[i]).1,
            depth,
        ) by {
            if i > 0 {
                if pairs[0].0 == key {
                    assert(now[i] == rest[i - 1]);
                } else if text_lt(key, pairs[0].0) {
                    assert(now[i] == pairs[i - 1]);
                } else {
                    assert(now[i] == placed(rest, key, value)[i - 1]);
                }
            } else {
                assert(now[0] == (key, value) || now[0] == pairs[0]);
            }
        }
    }
}

proof fn lemma_ordered_plain(pairs: Seq<(Seq<char>, JsonV)>, depth: int)
    requires
        forall|i: int| 0 <= i < pairs.len() ==> json_plain((#[trigger] pairs[i]).1, depth),
    ensures
        forall|i: int|
            0 <= i < ordered(pairs).len() ==> json_plain((#[trigger] ordered(pairs)[i]).1, depth),
    decreases pairs.len(),
{
    if pairs.len() > 0 {
        let rest = pairs.drop_last();
        assert forall|i: int| 0 <= i < rest.len() implies json_plain(
            (#[trigger] rest[i]).1,
            depth,
        ) by {
            assert(rest[i] == pairs[i]);
        }
        lemma_ordered_plain(rest, depth);
        assert(pairs[pairs.len() - 1] == pairs.last());
        lemma_placed_plain(ordered(rest), pairs.last().0, pairs.last().1, depth);
    }
}

/// An object is plain where its members are.
pub proof fn lemma_object_plain(pairs: Seq<(Seq<char>, JsonV)>, depth: int)
    requires
        depth > 0,
        forall|i: int|
            0 <= i < pairs.len() ==> json_plain(json_normal((#[trigger] pairs[i]).1), depth - 1),
    ensures
        json_plain(json_normal(JsonV::Object(pairs)), depth),
{
    lemma_normal_keys(pairs);
    let m = normal_members(pairs);
    assert forall|i: int| 0 <= i < m.len() implies json_plain((#[trigger] m[i]).1, depth - 1) by {
        assert(json_plain(json_normal(pairs[i].1), depth - 1));
    }
    lemma_ordered_plain(m, depth - 1);
}

/// What is plain is plain with more depth.
pub proof fn lemma_plain_deeper(j: JsonV, a: int, b: int)
    requires
        json_plain(j, a),
        a <= b,
    ensures
        json_plain(j, b),
    decreases j,
{
    match j {
        JsonV::List(items) => {
            assert forall|i: int| 0 <= i < items.len() implies json_plain(
                #[trigger] items[i],
                b - 1,
            ) by {
                assert(json_plain(items[i], a - 1));
                lemma_plain_deeper(items[i], a - 1, b - 1);
            }
        },
        JsonV::Object(pairs) => {
            assert forall|i: int| 0 <= i < pairs.len() implies json_plain(
                (#[trigger] pairs[i]).1,
                b - 1,
            ) by {
                assert(json_plain(pairs[i].1, a - 1));
                lemma_plain_deeper(pairs[i].1, a - 1, b - 1);
            }
        },
        _ => {},
    }
}

// Reading

/// The value of the first member with this key.
pub open spec fn find_key(pairs: Seq<(Seq<char>, JsonV)>, key: Seq<char>) -> Option<JsonV>
    decreases pairs.len(),
{
    if pairs.len() == 0 {
        None
    } else if pairs[0].0 == key {
        Some(pairs[0].1)
    } else {
        find_key(pairs.drop_first(), key)
    }
}

/// In two lists of members, one behind the other, the first list counts where it has the key.
pub proof fn lemma_find_key_joined(
    a: Seq<(Seq<char>, JsonV)>,
    b: Seq<(Seq<char>, JsonV)>,
    key: Seq<char>,
)
    ensures
        find_key(a + b, key) == match find_key(a, key) {
            Some(v) => Some(v),
            None => find_key(b, key),
        },
    decreases a.len(),
{
    if a.len() == 0 {
        assert(a + b =~= b);
    } else {
        assert((a + b).drop_first() =~= a.drop_first() + b);
        lemma_find_key_joined(a.drop_first(), b, key);
    }
}

/// The member of an object; nothing else has one.
pub open spec fn member(j: JsonV, key: Seq<char>) -> Option<JsonV> {
    match j {
        JsonV::Object(pairs) => find_key(pairs, key),
        _ => None,
    }
}

/// The index that a step of a pointer denotes in a list: digits without a leading zero.
pub open spec fn step_index(token: Seq<char>) -> Option<nat> {
    if token.len() > 0 && (token[0] == '+' || (token[0] == '0' && token.len() != 1)) {
        None
    } else {
        parsed_nat(token, usize::MAX as nat)
    }
}

/// Where one step of a pointer leads: to a member of an object or to an element of a list.
pub open spec fn step(j: JsonV, token: Seq<char>) -> Option<JsonV> {
    match j {
        JsonV::Object(pairs) => find_key(pairs, token),
        JsonV::List(items) => match step_index(token) {
            Some(i) => if i < items.len() {
                Some(items[i as int])
            } else {
                None
            },
            None => None,
        },
        _ => None,
    }
}

/// Where the steps lead, one after the other.
pub open spec fn walk(j: JsonV, tokens: Seq<Seq<char>>) -> Option<JsonV>
    decreases tokens.len(),
{
    if tokens.len() == 0 {
        Some(j)
    } else {
        match step(j, tokens[0]) {
            Some(next) => walk(next, tokens.drop_first()),
            None => None,
        }
    }
}

/// A step as written in a pointer: `~1` stands for `/` and `~0` for `~`.
pub open spec fn unescaped(token: Seq<char>) -> Seq<char> {
    replaced(replaced(token, "~1"@, "/"@), "~0"@, "~"@)
}

/// Where a JSON pointer leads.
pub open spec fn pointer(j: JsonV, path: Seq<char>) -> Option<JsonV> {
    if path.len() == 0 {
        Some(j)
    } else if path[0] != '/' {
        None
    } else {
        walk(j, split_on(path, '/').drop_first().map_values(|t: Seq<char>| unescaped(t)))
    }
}

/// The text of a document that is a text.
pub open spec fn text_in(j: Option<JsonV>) -> Option<Seq<char>> {
    match j {
        Some(JsonV::Text(s)) => Some(s),
        _ => None,
    }
}

/// The text of a document that is a text, and else no characters.
pub open spec fn text_or_empty(j: Option<JsonV>) -> Seq<char> {
    match text_in(j) {
        Some(s) => s,
        None => Seq::empty(),
    }
}

/// The elements of a document that is a list.
pub open spec fn list_in(j: Option<JsonV>) -> Option<Seq<JsonV>> {
    match j {
        Some(JsonV::List(items)) => Some(items),
        _ => None,
    }
}

/// The value of a document that is a number within `u64`.
pub open spec fn nat_in(j: Option<JsonV>) -> Option<u64> {
    match j {
        Some(JsonV::Number(n)) => n.unsigned,
        _ => None,
    }
}

/// The object with `key` set to `value`: in the place of the first member with that key, or behind
/// the others where there is none.
pub open spec fn with_key(
    pairs: Seq<(Seq<char>, JsonV)>,
    key: Seq<char>,
    value: JsonV,
) -> Seq<(Seq<char>, JsonV)>
    decreases pairs.len(),
{
    if pairs.len() == 0 {
        seq![(key, value)]
    } else if pairs[0].0 == key {
        seq![(key, value)] + pairs.drop_first()
    } else {
        seq![pairs[0]] + with_key(pairs.drop_first(), key, value)
    }
}

pub fn find_in<'a>(pairs: &'a Vec<(String, Json)>, key: &str) -> (r: Option<&'a Json>)
    ensures
        opt_json(r) == find_key(pairs_view(pairs@), key@),
{
    let ghost all = pairs_view(pairs@);
    let mut i: usize = 0;
    assert(all.skip(0) =~= all);
    while i < pairs.len()
        invariant
            i <= pairs@.len(),
            all == pairs_view(pairs@),
            find_key(all, key@) == find_key(all.skip(i as int), key@),
        decreases pairs.len() - i,
    {
        assert(all.skip(i as int).drop_first() =~= all.skip(i + 1));
        assert(all[i as int] == (pairs@[i as int].0@, pairs@[i as int].1@));
        if same(pairs[i].0.as_str(), key) {
            return Some(&pairs[i].1);
        }
        i += 1;
    }
    None
}

fn index_of_step(token: &str) -> (r: Option<usize>)
    ensures
        match r {
            Some(i) => step_index(token@) == Some(i as nat),
            None => step_index(token@) is None,
        },
{
    let v = chars_of(token);
    if v.len() > 0 && (v[0] == '+' || (v[0] == '0' && v.len() != 1)) {
        return None;
    }
    match parse_u64(token) {
        Some(n) => if n <= usize::MAX as u64 {
            Some(n as usize)
        } else {
            None
        },
        None => None,
    }
}

impl Json {
    /// Parses a text.
    pub fn parse(text: &str) -> (r: Result<Json, String>)
        ensures
            match r {
                Ok(j) => json_parsed(text@) == Ok::<JsonV, Seq<char>>(j@),
                Err(m) => json_parsed(text@) == Err::<JsonV, Seq<char>>(m@),
            },
    {
        match read_value(text) {
            Ok(v) => Ok(from_value(v)),
            Err(m) => Err(m),
        }
    }

    /// Parses bytes.
    pub fn parse_bytes(bytes: &Vec<u8>) -> (r: Result<Json, String>)
        ensures
            match r {
                Ok(j) => json_bytes_parsed(bytes@) == Ok::<JsonV, Seq<char>>(j@),
                Err(m) => json_bytes_parsed(bytes@) == Err::<JsonV, Seq<char>>(m@),
            },
    {
        match read_value_bytes(bytes) {
            Ok(v) => Ok(from_value(v)),
            Err(m) => Err(m),
        }
    }

    /// Parses a TOML text.
    pub fn parse_toml(text: &str) -> (r: Result<Json, String>)
        ensures
            match r {
                Ok(j) => toml_parsed(text@) == Ok::<JsonV, Seq<char>>(j@),
                Err(m) => toml_parsed(text@) == Err::<JsonV, Seq<char>>(m@),
            },
    {
        match read_toml(text) {
            Ok(v) => Ok(from_value(v)),
            Err(m) => Err(m),
        }
    }

    /// Says why this is no text, where it is none.
    pub fn text_fault(&self) -> (r: Option<String>)
        ensures
            opt_view(r) == text_fault(json_normal(self@)),
    {
        no_text(to_value(self))
    }

    /// Says why this is no list, where it is none.
    pub fn list_fault(&self) -> (r: Option<String>)
        ensures
            opt_view(r) == list_fault(json_normal(self@)),
    {
        no_list(to_value(self))
    }

    /// Says why this is no number within `u32`, where it is none.
    pub fn u32_fault(&self) -> (r: Option<String>)
        ensures
            opt_view(r) == u32_fault(json_normal(self@)),
    {
        no_u32(to_value(self))
    }

    /// Prints the document on one line.
    pub fn to_text(&self) -> (r: String)
        ensures
            r@ == json_printed(json_normal(self@)),
            forall|k: int| 0 <= k < r@.len() ==> #[trigger] r@[k] != '\n' && r@[k] != '\r',
            reads_back(r@, json_normal(self@)),
    {
        value_text(&to_value(self))
    }

    /// Prints the document indented.
    pub fn to_pretty(&self) -> (r: String)
        ensures
            r@ == json_pretty(json_normal(self@)),
            reads_back(r@, json_normal(self@)),
    {
        value_pretty(&to_value(self))
    }

    pub fn get(&self, key: &str) -> (r: Option<&Json>)
        ensures
            opt_json(r) == member(self@, key@),
    {
        proof {
            lemma_list_view(*self);
        }
        match self {
            Json::Object(v) => find_in(v, key),
            _ => None,
        }
    }

    fn step(&self, token: &str) -> (r: Option<&Json>)
        ensures
            opt_json(r) == step(self@, token@),
    {
        proof {
            lemma_list_view(*self);
        }
        match self {
            Json::Object(v) => find_in(v, token),
            Json::List(v) => match index_of_step(token) {
                Some(i) => if i < v.len() {
                    Some(&v[i])
                } else {
                    None
                },
                None => None,
            },
            _ => None,
        }
    }

    /// Where a JSON pointer leads.
    pub fn pointer(&self, path: &str) -> (r: Option<&Json>)
        ensures
            opt_json(r) == pointer(self@, path@),
    {
        let v = chars_of(path);
        if v.len() == 0 {
            return Some(self);
        }
        if v[0] != '/' {
            return None;
        }
        let tokens = split(path, '/');
        let ghost steps = split_on(path@, '/').drop_first().map_values(
            |t: Seq<char>| unescaped(t),
        );
        let mut here: &Json = self;
        let mut i: usize = 1;
        assert(steps.skip(0) =~= steps);
        while i < tokens.len()
            invariant
                1 <= i <= tokens@.len(),
                views(tokens@) == split_on(path@, '/'),
                steps == split_on(path@, '/').drop_first().map_values(
                    |t: Seq<char>| unescaped(t),
                ),
                walk(self@, steps) == walk(here@, steps.skip(i - 1)),
            decreases tokens.len() - i,
        {
            proof {
                reveal_strlit("~1");
                reveal_strlit("~0");
                assert(views(tokens@)[i as int] == tokens@[i as int]@);
                assert(steps[i - 1] == unescaped(tokens@[i as int]@));
                assert(steps.skip(i - 1).drop_first() =~= steps.skip(i as int));
            }
            let once = replace(tokens[i].as_str(), "~1", "/");
            let token = replace(once.as_str(), "~0", "~");
            match here.step(token.as_str()) {
                Some(next) => {
                    here = next;
                },
                None => {
                    return None;
                },
            }
            i += 1;
        }
        Some(here)
    }

    pub fn as_str(&self) -> (r: Option<&str>)
        ensures
            match r {
                Some(s) => text_in(Some(self@)) == Some(s@),
                None => text_in(Some(self@)) is None,
            },
    {
        match self {
            Json::Text(s) => Some(s.as_str()),
            _ => None,
        }
    }

    pub fn as_array(&self) -> (r: Option<&Vec<Json>>)
        ensures
            match r {
                Some(v) => list_in(Some(self@)) == Some(list_view(v@)),
                None => list_in(Some(self@)) is None,
            },
    {
        proof {
            lemma_list_view(*self);
        }
        match self {
            Json::List(v) => Some(v),
            _ => None,
        }
    }

    pub fn as_u64(&self) -> (r: Option<u64>)
        ensures
            r == nat_in(Some(self@)),
    {
        match self {
            Json::Number(n) => n.unsigned,
            _ => None,
        }
    }

    pub fn is_null(&self) -> (r: bool)
        ensures
            r == (self@ is Null),
    {
        match self {
            Json::Null => true,
            _ => false,
        }
    }

    /// A document equal to this one.
    pub fn copy(&self) -> (r: Json)
        ensures
            r@ == self@,
        decreases self,
    {
        proof {
            lemma_list_view(*self);
        }
        match self {
            Json::Null => Json::Null,
            Json::Bool(b) => Json::Bool(*b),
            Json::Number(n) => Json::Number(
                Num { text: n.text.clone(), signed: n.signed, unsigned: n.unsigned, whole: n.whole },
            ),
            Json::Text(s) => Json::Text(s.clone()),
            Json::List(v) => {
                let mut out: Vec<Json> = Vec::new();
                let mut i: usize = 0;
                while i < v.len()
                    invariant
                        i <= v@.len(),
                        *self == Json::List(*v),
                        list_view(out@) == list_view(v@).take(i as int),
                    decreases v.len() - i,
                {
                    assert(decreases_to!(*self => (*self)->List_0));
                    assert(decreases_to!(*v => v@));
                    assert(decreases_to!(v@ => v@[i as int]));
                    let j = v[i].copy();
                    assert(list_view(out@.push(j)) =~= list_view(out@).push(j@));
                    out.push(j);
                    assert(list_view(v@).take(i + 1) =~= list_view(v@).take(i as int).push(
                        v@[i as int]@,
                    ));
                    i += 1;
                }
                assert(list_view(v@).take(v@.len() as int) =~= list_view(v@));
                let r = Json::List(out);
                proof {
                    lemma_list_view(r);
                }
                r
            },
            Json::Object(v) => {
                let mut out: Vec<(String, Json)> = Vec::new();
                let mut i: usize = 0;
                while i < v.len()
                    invariant
                        i <= v@.len(),
                        *self == Json::Object(*v),
                        pairs_view(out@) == pairs_view(v@).take(i as int),
                    decreases v.len() - i,
                {
                    assert(decreases_to!(*self => (*self)->Object_0));
                    assert(decreases_to!(*v => v@));
                    assert(decreases_to!(v@ => v@[i as int]));
                    assert(decreases_to!(v@[i as int] => v@[i as int].1));
                    let p = (v[i].0.clone(), v[i].1.copy());
                    assert(pairs_view(out@.push(p)) =~= pairs_view(out@).push((p.0@, p.1@)));
                    out.push(p);
                    assert(pairs_view(v@).take(i + 1) =~= pairs_view(v@).take(i as int).push(
                        (v@[i as int].0@, v@[i as int].1@),
                    ));
                    i += 1;
                }
                assert(pairs_view(v@).take(v@.len() as int) =~= pairs_view(v@));
                let r = Json::Object(out);
                proof {
                    lemma_list_view(r);
                }
                r
            },
        }
    }
}

/// The text behind an optional document.
pub fn opt_str<'a>(j: Option<&'a Json>) -> (r: Option<&'a str>)
    ensures
        match r {
            Some(s) => text_in(opt_json(j)) == Some(s@),
            None => text_in(opt_json(j)) is None,
        },
{
    match j {
        Some(v) => v.as_str(),
        None => None,
    }
}

/// Whether an optional document is the text `s`.
pub fn is_text(j: Option<&Json>, s: &str) -> (r: bool)
    ensures
        r == (text_in(opt_json(j)) == Some(s@)),
{
    match opt_str(j) {
        Some(t) => same(t, s),
        None => false,
    }
}

/// The text behind an optional document, or no characters.
pub fn str_or_empty(j: Option<&Json>) -> (r: String)
    ensures
        r@ == text_or_empty(opt_json(j)),
{
    match opt_str(j) {
        Some(t) => t.to_owned(),
        None => String::new(),
    }
}

// Building

/// What the number `n` says.
pub open spec fn nat_view(n: u64) -> JsonV {
    JsonV::Number(
        NumV {
            text: dec(n as nat),
            signed: if n <= i64::MAX {
                Some(n as i64)
            } else {
                None
            },
            unsigned: Some(n),
            whole: if n <= i64::MAX {
                n as i64
            } else {
                i64::MAX
            },
        },
    )
}

pub fn natural(n: u64) -> (r: Json)
    ensures
        r@ == nat_view(n),
{
    let small: bool = n <= i64::MAX as u64;
    let r = Json::Number(
        Num {
            text: crate::strs::decimal(n),
            signed: if small {
                Some(n as i64)
            } else {
                None
            },
            unsigned: Some(n),
            whole: if small {
                n as i64
            } else {
                i64::MAX
            },
        },
    );
    r
}

pub fn text(s: &str) -> (r: Json)
    ensures
        r@ == JsonV::Text(s@),
{
    Json::Text(s.to_owned())
}

pub fn empty_object() -> (r: Json)
    ensures
        r@ == JsonV::Object(Seq::empty()),
{
    let r = Json::Object(Vec::new());
    assert(r@->Object_0 =~= Seq::empty());
    r
}

pub fn list(v: Vec<Json>) -> (r: Json)
    ensures
        r@ == JsonV::List(list_view(v@)),
{
    let r = Json::List(v);
    proof {
        lemma_list_view(r);
    }
    r
}

pub fn list1(a: Json) -> (r: Json)
    ensures
        r@ == JsonV::List(seq![a@]),
{
    let mut v: Vec<Json> = Vec::new();
    v.push(a);
    assert(list_view(v@) =~= seq![a@]);
    list(v)
}

pub fn object(v: Vec<(String, Json)>) -> (r: Json)
    ensures
        r@ == JsonV::Object(pairs_view(v@)),
{
    let r = Json::Object(v);
    proof {
        lemma_list_view(r);
    }
    r
}

pub fn object1(k1: &str, v1: Json) -> (r: Json)
    ensures
        r@ == JsonV::Object(seq![(k1@, v1@)]),
{
    let mut v: Vec<(String, Json)> = Vec::new();
    v.push((k1.to_owned(), v1));
    assert(pairs_view(v@) =~= seq![(k1@, v1@)]);
    object(v)
}

pub fn object2(k1: &str, v1: Json, k2: &str, v2: Json) -> (r: Json)
    ensures
        r@ == JsonV::Object(seq![(k1@, v1@), (k2@, v2@)]),
{
    let mut v: Vec<(String, Json)> = Vec::new();
    v.push((k1.to_owned(), v1));
    v.push((k2.to_owned(), v2));
    assert(pairs_view(v@) =~= seq![(k1@, v1@), (k2@, v2@)]);
    object(v)
}

pub fn object3(k1: &str, v1: Json, k2: &str, v2: Json, k3: &str, v3: Json) -> (r: Json)
    ensures
        r@ == JsonV::Object(seq![(k1@, v1@), (k2@, v2@), (k3@, v3@)]),
{
    let mut v: Vec<(String, Json)> = Vec::new();
    v.push((k1.to_owned(), v1));
    v.push((k2.to_owned(), v2));
    v.push((k3.to_owned(), v3));
    assert(pairs_view(v@) =~= seq![(k1@, v1@), (k2@, v2@), (k3@, v3@)]);
    object(v)
}

pub fn object4(
    k1: &str,
    v1: Json,
    k2: &str,
    v2: Json,
    k3: &str,
    v3: Json,
    k4: &str,
    v4: Json,
) -> (r: Json)
    ensures
        r@ == JsonV::Object(seq![(k1@, v1@), (k2@, v2@), (k3@, v3@), (k4@, v4@)]),
{
    let mut v: Vec<(String, Json)> = Vec::new();
    v.push((k1.to_owned(), v1));
    v.push((k2.to_owned(), v2));
    v.push((k3.to_owned(), v3));
    v.push((k4.to_owned(), v4));
    assert(pairs_view(v@) =~= seq![(k1@, v1@), (k2@, v2@), (k3@, v3@), (k4@, v4@)]);
    object(v)
}

pub fn object5(
    k1: &str,
    v1: Json,
    k2: &str,
    v2: Json,
    k3: &str,
    v3: Json,
    k4: &str,
    v4: Json,
    k5: &str,
    v5: Json,
) -> (r: Json)
    ensures
        r@ == JsonV::Object(
            seq![(k1@, v1@), (k2@, v2@), (k3@, v3@), (k4@, v4@), (k5@, v5@)],
        ),
{
    let mut v: Vec<(String, Json)> = Vec::new();
    v.push((k1.to_owned(), v1));
    v.push((k2.to_owned(), v2));
    v.push((k3.to_owned(), v3));
    v.push((k4.to_owned(), v4));
    v.push((k5.to_owned(), v5));
    assert(pairs_view(v@) =~= seq![(k1@, v1@), (k2@, v2@), (k3@, v3@), (k4@, v4@), (k5@, v5@)]);
    object(v)
}

/// The document with `key` set to `value`, where it is an object; another is left as it is.
pub open spec fn set_member(j: JsonV, key: Seq<char>, value: JsonV) -> JsonV {
    match j {
        JsonV::Object(pairs) => JsonV::Object(with_key(pairs, key, value)),
        _ => j,
    }
}

fn set_pair(given: Vec<(String, Json)>, key: &str, value: Json) -> (r: Vec<(String, Json)>)
    ensures
        pairs_view(r@) == with_key(pairs_view(given@), key@, value@),
{
    let ghost all = pairs_view(given@);
    let mut pairs = given;
    let mut i: usize = 0;
    assert(all.skip(0) =~= all && all.take(0) + with_key(all, key@, value@) =~= with_key(
        all,
        key@,
        value@,
    ));
    while i < pairs.len()
        invariant
            i <= pairs@.len(),
            all == pairs_view(pairs@),
            all == pairs_view(given@),
            all.take(i as int) + with_key(all.skip(i as int), key@, value@) == with_key(
                all,
                key@,
                value@,
            ),
        decreases pairs.len() - i,
    {
        let ghost rest = all.skip(i as int);
        assert(rest.drop_first() =~= all.skip(i + 1));
        assert(all[i as int] == (pairs@[i as int].0@, pairs@[i as int].1@));
        if same(pairs[i].0.as_str(), key) {
            let p = (key.to_owned(), value);
            pairs.set(i, p);
            assert(pairs_view(pairs@) =~= all.take(i as int) + with_key(rest, key@, value@));
            return pairs;
        }
        assert(all.take(i + 1) + with_key(all.skip(i + 1), key@, value@) =~= all.take(i as int)
            + with_key(rest, key@, value@));
        i += 1;
    }
    pairs.push((key.to_owned(), value));
    assert(all.skip(i as int) =~= Seq::empty());
    assert(pairs_view(pairs@) =~= all.take(i as int) + seq![(key@, value@)]);
    pairs
}

/// Sets a member of an object.
pub fn put(j: Json, key: &str, value: Json) -> (r: Json)
    ensures
        r@ == set_member(j@, key@, value@),
{
    proof {
        lemma_list_view(j);
    }
    match j {
        Json::Object(pairs) => object(set_pair(pairs, key, value)),
        _ => j,
    }
}

} // verus!
