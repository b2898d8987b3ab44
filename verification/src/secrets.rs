//! The keys of a user: what is stored, found and cleared in their file.

use crate::crm::source::{all_texts, key_map, map_or_none, push_pair};
use crate::json::{
    distinct_keys, json_normal, json_parsed, json_plain, json_pretty, law_normal_keeps_members,
    law_order_keeps_the_last, lemma_last_is_first, lemma_object_plain, lemma_ordered_distinct,
    lemma_plain_deeper, normal_members, object, ordered, pairs_view, placed, text, text_in, Json, JsonV, MAX_DEPTH,
};
use crate::provider::{
    cleared, lemma_stored_new, lookup, once, stored, text_pairs, TextMap,
};
use crate::records::{field, field_of, is_record, opt_text_field, opt_text_reads, record};
use crate::strs::{opt_view, same, text_lt};
use vstd::prelude::*;

pub mod laws;

verus! {

/// What the file of keys holds. A name occurs once.
#[derive(Debug)]
pub struct AuthFile {
    pub meta_access_token: Option<String>,
    pub llm_keys: TextMap,
    pub crm_keys: TextMap,
}

#[verifier::ext_equal]
pub struct AuthFileV {
    pub meta_access_token: Option<Seq<char>>,
    pub llm_keys: Seq<(Seq<char>, Seq<char>)>,
    pub crm_keys: Seq<(Seq<char>, Seq<char>)>,
}

impl View for AuthFile {
    type V = AuthFileV;

    open spec fn view(&self) -> AuthFileV {
        AuthFileV {
            meta_access_token: opt_view(self.meta_access_token),
            llm_keys: self.llm_keys@,
            crm_keys: self.crm_keys@,
        }
    }
}

fn find_key(m: &TextMap, key: &str) -> (r: Option<String>)
    ensures
        opt_view(r) == lookup(m@, key@),
{
    match m.get(key) {
        Some(v) => Some(v.clone()),
        None => None,
    }
}

pub fn store_meta_token(f: &mut AuthFile, token: &str)
    ensures
        final(f)@ == (AuthFileV { meta_access_token: Some(token@), ..old(f)@ }),
{
    f.meta_access_token = Some(token.to_owned());
}

pub fn load_meta_token(f: &AuthFile) -> (r: Option<String>)
    ensures
        opt_view(r) == f@.meta_access_token,
{
    crate::strs::copy_opt(&f.meta_access_token)
}

pub fn clear_meta_token(f: &mut AuthFile)
    ensures
        final(f)@ == (AuthFileV { meta_access_token: None, ..old(f)@ }),
{
    f.meta_access_token = None;
}

/// Stores the key of a provider.
pub fn store_llm_key(f: &mut AuthFile, provider_id: &str, api_key: &str)
    ensures
        final(f)@ == (AuthFileV {
            llm_keys: stored(old(f)@.llm_keys, provider_id@, api_key@),
            ..old(f)@
        }),
{
    f.llm_keys.insert(provider_id, api_key);
}

pub fn load_llm_key(f: &AuthFile, provider_id: &str) -> (r: Option<String>)
    ensures
        opt_view(r) == lookup(f@.llm_keys, provider_id@),
{
    find_key(&f.llm_keys, provider_id)
}

pub fn clear_llm_key(f: &mut AuthFile, provider_id: &str)
    ensures
        final(f)@ == (AuthFileV {
            llm_keys: cleared(old(f)@.llm_keys, provider_id@),
            ..old(f)@
        }),
{
    f.llm_keys.remove(provider_id);
}

/// Stores a secret of the CRM.
pub fn store_crm_key(f: &mut AuthFile, name: &str, value: &str)
    ensures
        final(f)@ == (AuthFileV {
            crm_keys: stored(old(f)@.crm_keys, name@, value@),
            ..old(f)@
        }),
{
    f.crm_keys.insert(name, value);
}

pub fn load_crm_key(f: &AuthFile, name: &str) -> (r: Option<String>)
    ensures
        opt_view(r) == lookup(f@.crm_keys, name@),
{
    find_key(&f.crm_keys, name)
}

pub fn clear_crm_key(f: &mut AuthFile, name: &str)
    ensures
        final(f)@ == (AuthFileV {
            crm_keys: cleared(old(f)@.crm_keys, name@),
            ..old(f)@
        }),
{
    f.crm_keys.remove(name);
}


// The file

pub open spec fn empty_auth() -> AuthFileV {
    AuthFileV { meta_access_token: None, llm_keys: Seq::empty(), crm_keys: Seq::empty() }
}

/// What a document says as a file of keys, where it reads as one.
pub open spec fn auth_read(j: JsonV) -> Option<AuthFileV> {
    let token = field(j, "meta_access_token"@, 0);
    match (key_map(field(j, "llm_keys"@, 1)), key_map(field(j, "crm_keys"@, 2))) {
        (Some(llm_keys), Some(crm_keys)) => if is_record(j, 3) && opt_text_reads(token) {
            Some(AuthFileV { meta_access_token: text_in(token), llm_keys, crm_keys })
        } else {
            None
        },
        _ => None,
    }
}

/// What the text of a file of keys says; one that is missing or does not read says nothing.
pub open spec fn auth_of(raw: Option<Seq<char>>) -> AuthFileV {
    match raw {
        Some(s) => match json_parsed(s) {
            Ok(j) => match auth_read(j) {
                Some(f) => f,
                None => empty_auth(),
            },
            Err(_) => empty_auth(),
        },
        None => empty_auth(),
    }
}

fn no_keys() -> (r: AuthFile)
    ensures
        r@ == empty_auth(),
{
    AuthFile { meta_access_token: None, llm_keys: TextMap::new(), crm_keys: TextMap::new() }
}

/// Reads a document as a file of keys.
pub fn read_auth(j: &Json) -> (r: Option<AuthFile>)
    ensures
        match r {
            Some(f) => auth_read(j@) == Some(f@),
            None => auth_read(j@) is None,
        },
{
    if !record(j, 3) {
        return None;
    }
    match (
        opt_text_field(field_of(j, "meta_access_token", 0)),
        map_or_none(field_of(j, "llm_keys", 1)),
        map_or_none(field_of(j, "crm_keys", 2)),
    ) {
        (Some(meta_access_token), Some(llm_keys), Some(crm_keys)) => Some(
            AuthFile { meta_access_token, llm_keys, crm_keys },
        ),
        _ => None,
    }
}

/// Reads the text of a file of keys.
pub fn load_file(raw: &Option<String>) -> (r: AuthFile)
    ensures
        r@ == auth_of(opt_view(*raw)),
{
    match raw {
        Some(s) => match Json::parse(s.as_str()) {
            Ok(j) => match read_auth(&j) {
                Some(f) => f,
                None => no_keys(),
            },
            Err(_) => no_keys(),
        },
        None => no_keys(),
    }
}

pub open spec fn texts_json(pairs: Seq<(Seq<char>, Seq<char>)>) -> Seq<(Seq<char>, JsonV)> {
    pairs.map_values(|p: (Seq<char>, Seq<char>)| (p.0, JsonV::Text(p.1)))
}

pub open spec fn keys_member(name: Seq<char>, pairs: Seq<(Seq<char>, Seq<char>)>) -> Seq<
    (Seq<char>, JsonV),
> {
    if pairs.len() == 0 {
        Seq::empty()
    } else {
        seq![(name, JsonV::Object(texts_json(pairs)))]
    }
}

/// A file of keys as a document; what is empty is left out.
pub open spec fn auth_document(f: AuthFileV) -> JsonV {
    JsonV::Object(
        match f.meta_access_token {
            Some(t) => seq![("meta_access_token"@, JsonV::Text(t))],
            None => Seq::empty(),
        } + keys_member("llm_keys"@, f.llm_keys) + keys_member("crm_keys"@, f.crm_keys),
    )
}

fn push_keys(out: &mut Vec<(String, Json)>, name: &str, m: &TextMap)
    ensures
        pairs_view(final(out)@) == pairs_view(old(out)@) + keys_member(name@, m@),
{
    let ghost start = pairs_view(out@);
    let ghost all = m@;
    assert(all.len() == m.pairs@.len());
    if m.pairs.len() == 0 {
        assert(start + keys_member(name@, m@) =~= start);
        return;
    }
    let mut keys: Vec<(String, Json)> = Vec::new();
    let mut i: usize = 0;
    assert(pairs_view(keys@) =~= texts_json(all).take(0));
    while i < m.pairs.len()
        invariant
            i <= m.pairs@.len(),
            all == text_pairs(m.pairs@),
            pairs_view(keys@) == texts_json(all).take(i as int),
        decreases m.pairs.len() - i,
    {
        assert(all[i as int] == (m.pairs@[i as int].0@, m.pairs@[i as int].1@));
        assert(texts_json(all).take(i + 1) =~= texts_json(all).take(i as int).push(
            (all[i as int].0, JsonV::Text(all[i as int].1)),
        ));
        push_pair(&mut keys, m.pairs[i].0.as_str(), text(m.pairs[i].1.as_str()));
        i += 1;
    }
    assert(texts_json(all).take(i as int) =~= texts_json(all));
    push_pair(out, name, object(keys));
    assert(pairs_view(out@) =~= start + keys_member(name@, m@));
}

/// The document of a file of keys.
pub fn auth_json(f: &AuthFile) -> (r: Json)
    ensures
        r@ == auth_document(f@),
{
    let mut out: Vec<(String, Json)> = Vec::new();
    match &f.meta_access_token {
        Some(t) => {
            push_pair(&mut out, "meta_access_token", text(t.as_str()));
        },
        None => {},
    }
    let ghost head = match f@.meta_access_token {
        Some(t) => seq![("meta_access_token"@, JsonV::Text(t))],
        None => Seq::<(Seq<char>, JsonV)>::empty(),
    };
    assert(pairs_view(out@) =~= head);
    push_keys(&mut out, "llm_keys", &f.llm_keys);
    push_keys(&mut out, "crm_keys", &f.crm_keys);
    object(out)
}

proof fn lemma_texts_read_back(pairs: Seq<(Seq<char>, Seq<char>)>)
    requires
        once(pairs),
    ensures
        all_texts(texts_json(pairs)) == Some(pairs),
    decreases pairs.len(),
{
    if pairs.len() > 0 {
        let n = pairs.len() - 1;
        let rest = pairs.drop_last();
        assert forall|i: int, j: int| 0 <= i < j < rest.len() implies (#[trigger] rest[i]).0 != (
        #[trigger] rest[j]).0 by {
            assert(pairs[i].0 != pairs[j].0);
        }
        lemma_texts_read_back(rest);
        assert forall|i: int| 0 <= i < rest.len() implies (#[trigger] rest[i]).0 != pairs[n].0 by {
            assert(pairs[i].0 != pairs[n].0);
        }
        lemma_stored_new(rest, pairs[n].0, pairs[n].1);
        assert(texts_json(pairs).drop_last() =~= texts_json(pairs.drop_last()));
        assert(pairs.drop_last().push(pairs.last()) =~= pairs);
    } else {
        assert(texts_json(pairs) =~= Seq::empty());
        assert(pairs =~= Seq::empty());
    }
}

proof fn lemma_member_behind(a: (Seq<char>, JsonV), rest: Seq<(Seq<char>, JsonV)>, key: Seq<char>)
    ensures
        crate::json::find_key(seq![a] + rest, key) == (if a.0 == key {
            Some(a.1)
        } else {
            crate::json::find_key(rest, key)
        }),
{
    assert((seq![a] + rest).drop_first() =~= rest);
}

/// What is written to the file of keys is read from it.
pub proof fn law_written_keys_are_read_back(f: AuthFileV)
    requires
        named_once(f),
    ensures
        auth_read(auth_document(f)) == Some(f),
{
    reveal_strlit("meta_access_token");
    reveal_strlit("llm_keys");
    reveal_strlit("crm_keys");
    lemma_texts_read_back(f.llm_keys);
    lemma_texts_read_back(f.crm_keys);
    let tok = match f.meta_access_token {
        Some(t) => seq![("meta_access_token"@, JsonV::Text(t))],
        None => Seq::empty(),
    };
    let a = keys_member("llm_keys"@, f.llm_keys);
    let b = keys_member("crm_keys"@, f.crm_keys);
    let doc = auth_document(f)->Object_0;
    assert("llm_keys"@[0] == 'l' && "crm_keys"@[0] == 'c' && "meta_access_token"@[0] == 'm');
    let none = Seq::<(Seq<char>, JsonV)>::empty();
    assert(b =~= b + none);
    if f.crm_keys.len() > 0 {
        lemma_member_behind(b[0], none, "crm_keys"@);
        lemma_member_behind(b[0], none, "llm_keys"@);
        lemma_member_behind(b[0], none, "meta_access_token"@);
        assert(b =~= seq![b[0]] + none);
    }
    let ab = a + b;
    if f.llm_keys.len() > 0 {
        assert(ab =~= seq![a[0]] + b);
        lemma_member_behind(a[0], b, "crm_keys"@);
        lemma_member_behind(a[0], b, "llm_keys"@);
        lemma_member_behind(a[0], b, "meta_access_token"@);
    } else {
        assert(ab =~= b);
    }
    if f.meta_access_token is Some {
        assert(doc =~= seq![tok[0]] + ab);
        lemma_member_behind(tok[0], ab, "crm_keys"@);
        lemma_member_behind(tok[0], ab, "llm_keys"@);
        lemma_member_behind(tok[0], ab, "meta_access_token"@);
    } else {
        assert(doc =~= ab);
    }
    assert(f.llm_keys.len() == 0 ==> f.llm_keys =~= Seq::empty());
    assert(f.crm_keys.len() == 0 ==> f.crm_keys =~= Seq::empty());
}

// What a written file gives back

pub open spec fn named_once(f: AuthFileV) -> bool {
    once(f.llm_keys) && once(f.crm_keys)
}

/// Whether two files hold the same token and the same key under every name.
pub open spec fn same_keys(a: AuthFileV, b: AuthFileV) -> bool {
    &&& a.meta_access_token == b.meta_access_token
    &&& forall|k: Seq<char>| #[trigger] lookup(a.llm_keys, k) == lookup(b.llm_keys, k)
    &&& forall|k: Seq<char>| #[trigger] lookup(a.crm_keys, k) == lookup(b.crm_keys, k)
}

/// Whether every member is a text.
spec fn texts_only(pairs: Seq<(Seq<char>, JsonV)>) -> bool {
    forall|i: int| 0 <= i < pairs.len() ==> (#[trigger] pairs[i]).1 is Text
}

proof fn lemma_placed_texts(pairs: Seq<(Seq<char>, JsonV)>, key: Seq<char>, value: JsonV)
    requires
        texts_only(pairs),
        value is Text,
    ensures
        texts_only(placed(pairs, key, value)),
    decreases pairs.len(),
{
    if pairs.len() > 0 {
        let rest = pairs.drop_first();
        assert(texts_only(rest)) by {
            assert forall|i: int| 0 <= i < rest.len() implies (#[trigger] rest[i]).1 is Text by {
                assert(pairs[i + 1].1 is Text);
            }
        }
        lemma_placed_texts(rest, key, value);
        let now = placed(pairs, key, value);
        assert forall|i: int| 0 <= i < now.len() implies (#[trigger] now[i]).1 is Text by {
            if i == 0 {
                assert(pairs[0].1 is Text);
            } else if pairs[0].0 == key {
                assert(now[i] == rest[i - 1]);
            } else if text_lt(key, pairs[0].0) {
                assert(now[i] == pairs[i - 1]);
            } else {
                assert(now[i] == placed(rest, key, value)[i - 1]);
            }
        }
    }
}

proof fn lemma_ordered_texts(pairs: Seq<(Seq<char>, JsonV)>)
    requires
        texts_only(pairs),
    ensures
        texts_only(ordered(pairs)),
    decreases pairs.len(),
{
    if pairs.len() > 0 {
        let rest = pairs.drop_last();
        assert(texts_only(rest)) by {
            assert forall|i: int| 0 <= i < rest.len() implies (#[trigger] rest[i]).1 is Text by {
                assert(pairs[i].1 is Text);
            }
        }
        lemma_ordered_texts(rest);
        assert(pairs[pairs.len() - 1].1 is Text);
        lemma_placed_texts(ordered(rest), pairs.last().0, pairs.last().1);
    }
}

proof fn lemma_all_texts(pairs: Seq<(Seq<char>, JsonV)>)
    requires
        texts_only(pairs),
        distinct_keys(pairs),
    ensures
        all_texts(pairs) is Some,
        texts_json(all_texts(pairs)->0) == pairs,
    decreases pairs.len(),
{
    if pairs.len() > 0 {
        let rest = pairs.drop_last();
        assert(texts_only(rest)) by {
            assert forall|i: int| 0 <= i < rest.len() implies (#[trigger] rest[i]).1 is Text by {
                assert(pairs[i].1 is Text);
            }
        }
        assert(distinct_keys(rest)) by {
            assert forall|i: int, j: int| 0 <= i < j < rest.len() implies (#[trigger] rest[i]).0
                != (#[trigger] rest[j]).0 by {
                assert(pairs[i].0 != pairs[j].0);
            }
        }
        lemma_all_texts(rest);
        let n = pairs.len() - 1;
        assert(pairs[n].1 is Text);
        let before = all_texts(rest)->0;
        assert forall|i: int| 0 <= i < before.len() implies (#[trigger] before[i]).0
            != pairs[n].0 by {
            assert(texts_json(before)[i] == rest[i]);
            assert(pairs[i].0 != pairs[n].0);
        }
        lemma_stored_new(before, pairs[n].0, pairs[n].1->Text_0);
        assert(pairs =~= rest.push(pairs.last()));
        assert(texts_json(all_texts(pairs)->0) =~= pairs);
    } else {
        assert(texts_json(all_texts(pairs)->0) =~= pairs);
    }
}

proof fn lemma_lookup_texts(pairs: Seq<(Seq<char>, Seq<char>)>, k: Seq<char>)
    ensures
        text_in(crate::json::find_key(texts_json(pairs), k)) == lookup(pairs, k),
        crate::json::find_key(texts_json(pairs), k) is Some ==> crate::json::find_key(
            texts_json(pairs),
            k,
        )->0 is Text,
    decreases pairs.len(),
{
    if pairs.len() > 0 {
        lemma_lookup_texts(pairs.drop_first(), k);
        assert(texts_json(pairs).drop_first() =~= texts_json(pairs.drop_first()));
    }
}

proof fn lemma_normal_texts(pairs: Seq<(Seq<char>, JsonV)>)
    requires
        texts_only(pairs),
    ensures
        normal_members(pairs) == pairs,
    decreases pairs.len(),
{
    if pairs.len() > 0 {
        let rest = pairs.drop_first();
        assert(texts_only(rest)) by {
            assert forall|i: int| 0 <= i < rest.len() implies (#[trigger] rest[i]).1 is Text by {
                assert(pairs[i + 1].1 is Text);
            }
        }
        lemma_normal_texts(rest);
        assert(pairs[0].1 is Text);
        reveal_with_fuel(json_normal, 2);
        reveal_with_fuel(normal_members, 2);
        assert(json_normal(pairs[0].1) == pairs[0].1);
        assert(seq![pairs[0]] + rest =~= pairs);
        assert((pairs[0].0, pairs[0].1) == pairs[0]);
    } else {
        assert(normal_members(pairs) =~= pairs);
    }
}

/// The keys that a printed table gives back.
proof fn lemma_table_back(pairs: Seq<(Seq<char>, Seq<char>)>)
    requires
        once(pairs),
    ensures
        ({
            let back = json_normal(JsonV::Object(texts_json(pairs)))->Object_0;
            &&& all_texts(back) is Some
            &&& forall|k: Seq<char>| #[trigger] lookup(all_texts(back)->0, k) == lookup(pairs, k)
        }),
        json_plain(json_normal(JsonV::Object(texts_json(pairs))), 1),
{
    let t = texts_json(pairs);
    assert(texts_only(t));
    lemma_normal_texts(t);
    lemma_ordered_texts(t);
    let back = ordered(t);
    assert(distinct_keys(t)) by {
        assert forall|i: int, j: int| 0 <= i < j < t.len() implies (#[trigger] t[i]).0 != (
        #[trigger] t[j]).0 by {
            assert(pairs[i].0 != pairs[j].0);
        }
    }
    lemma_ordered_distinct(t);
    lemma_all_texts(back);
    let q = all_texts(back)->0;
    assert forall|k: Seq<char>| #[trigger] lookup(q, k) == lookup(pairs, k) by {
        lemma_lookup_texts(q, k);
        lemma_lookup_texts(pairs, k);
        law_order_keeps_the_last(t, k);
        lemma_last_is_first(t, k);
    }
    assert forall|i: int| 0 <= i < t.len() implies json_plain(
        json_normal((#[trigger] t[i]).1),
        0,
    ) by {
        assert(t[i].1 is Text);
    }
    lemma_object_plain(t, 1);
}

proof fn lemma_document_back(f: AuthFileV)
    requires
        named_once(f),
    ensures
        auth_read(json_normal(auth_document(f))) is Some,
        same_keys(auth_read(json_normal(auth_document(f)))->0, f),
        json_plain(json_normal(auth_document(f)), MAX_DEPTH as int),
{
    law_written_keys_are_read_back(f);
    let doc = auth_document(f)->Object_0;
    let now = json_normal(auth_document(f));
    lemma_table_back(f.llm_keys);
    lemma_table_back(f.crm_keys);
    reveal_strlit("meta_access_token");
    reveal_strlit("llm_keys");
    reveal_strlit("crm_keys");
    assert("llm_keys"@[0] == 'l' && "crm_keys"@[0] == 'c' && "meta_access_token"@[0] == 'm');
    assert(distinct_keys(doc));
    law_normal_keeps_members(doc, "meta_access_token"@);
    law_normal_keeps_members(doc, "llm_keys"@);
    law_normal_keeps_members(doc, "crm_keys"@);
    lemma_document_members(f);
    assert forall|i: int| 0 <= i < doc.len() implies json_plain(
        json_normal((#[trigger] doc[i]).1),
        MAX_DEPTH - 1,
    ) by {
        let v = doc[i].1;
        if v == JsonV::Object(texts_json(f.llm_keys)) || v == JsonV::Object(
            texts_json(f.crm_keys),
        ) {
            lemma_plain_deeper(json_normal(v), 1, MAX_DEPTH - 1);
        }
    }
    lemma_object_plain(doc, MAX_DEPTH as int);
}

/// What stands under each key of the document.
proof fn lemma_document_members(f: AuthFileV)
    ensures
        ({
            let doc = auth_document(f)->Object_0;
            &&& crate::json::find_key(doc, "meta_access_token"@) == match f.meta_access_token {
                Some(t) => Some(JsonV::Text(t)),
                None => None,
            }
            &&& crate::json::find_key(doc, "llm_keys"@) == (if f.llm_keys.len() == 0 {
                None
            } else {
                Some(JsonV::Object(texts_json(f.llm_keys)))
            })
            &&& crate::json::find_key(doc, "crm_keys"@) == (if f.crm_keys.len() == 0 {
                None
            } else {
                Some(JsonV::Object(texts_json(f.crm_keys)))
            })
        }),
{
    reveal_strlit("meta_access_token");
    reveal_strlit("llm_keys");
    reveal_strlit("crm_keys");
    assert("llm_keys"@[0] == 'l' && "crm_keys"@[0] == 'c' && "meta_access_token"@[0] == 'm');
    let doc = auth_document(f)->Object_0;
    reveal_with_fuel(crate::json::find_key, 4);
    let a = doc.drop_first();
    let b = a.drop_first();
    if doc.len() > 1 {
        assert(a[0] == doc[1]);
    }
    if doc.len() > 2 {
        assert(b[0] == doc[2]);
    }
}

/// The text of a file of keys. Read again, it gives the same key under every name.
pub fn auth_text(f: &AuthFile) -> (r: String)
    ensures
        r@ == json_pretty(json_normal(auth_document(f@))),
        named_once(f@) ==> same_keys(auth_of(Some(r@)), f@),
{
    proof {
        if named_once(f@) {
            lemma_document_back(f@);
        }
    }
    auth_json(f).to_pretty()
}

} // verus!
