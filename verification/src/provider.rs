//! The providers of language models: where they are, what they speak and how they are keyed.

use crate::strs::{copy_list, opt_view, same, trim, trimmed, views};
use vstd::prelude::*;

pub mod laws;

verus! {

/// The wire protocol that a provider speaks.
#[derive(Debug, Clone, Copy, PartialEq, Eq, Structural)]
pub enum WireApi {
    /// `{base_url}/responses`
    Responses,
    /// `{base_url}/chat/completions`
    ChatCompletions,
    /// `{base_url}/messages`
    Messages,
}

impl Default for WireApi {
    fn default() -> (r: Self)
        ensures
            r == WireApi::Responses,
    {
        WireApi::Responses
    }
}

/// Text keys with a text each, in the order in which they were put in. A key occurs once.
#[derive(Debug)]
pub struct TextMap {
    pub pairs: Vec<(String, String)>,
}

pub open spec fn text_pairs(v: Seq<(String, String)>) -> Seq<(Seq<char>, Seq<char>)> {
    v.map_values(|p: (String, String)| (p.0@, p.1@))
}

pub proof fn lemma_text_pairs_push(v: Seq<(String, String)>, p: (String, String))
    ensures
        text_pairs(v.push(p)) == text_pairs(v).push((p.0@, p.1@)),
{
    assert(text_pairs(v.push(p)) =~= text_pairs(v).push((p.0@, p.1@)));
}

/// The text of the first pair with this key.
pub open spec fn lookup(pairs: Seq<(Seq<char>, Seq<char>)>, key: Seq<char>) -> Option<Seq<char>>
    decreases pairs.len(),
{
    if pairs.len() == 0 {
        None
    } else if pairs[0].0 == key {
        Some(pairs[0].1)
    } else {
        lookup(pairs.drop_first(), key)
    }
}

/// Whether no name occurs twice.
pub open spec fn once(pairs: Seq<(Seq<char>, Seq<char>)>) -> bool {
    forall|i: int, j: int|
        0 <= i < j < pairs.len() ==> (#[trigger] pairs[i]).0 != (#[trigger] pairs[j]).0
}

/// The pairs with `key` set to `value`: in the place of the first pair with that key, or behind
/// the others where there is none.
pub open spec fn stored(
    pairs: Seq<(Seq<char>, Seq<char>)>,
    key: Seq<char>,
    value: Seq<char>,
) -> Seq<(Seq<char>, Seq<char>)>
    decreases pairs.len(),
{
    if pairs.len() == 0 {
        seq![(key, value)]
    } else if pairs[0].0 == key {
        seq![(key, value)] + pairs.drop_first()
    } else {
        seq![pairs[0]] + stored(pairs.drop_first(), key, value)
    }
}

/// The pairs without those of `key`.
pub open spec fn cleared(pairs: Seq<(Seq<char>, Seq<char>)>, key: Seq<char>) -> Seq<
    (Seq<char>, Seq<char>),
>
    decreases pairs.len(),
{
    if pairs.len() == 0 {
        Seq::empty()
    } else if pairs[0].0 == key {
        cleared(pairs.drop_first(), key)
    } else {
        seq![pairs[0]] + cleared(pairs.drop_first(), key)
    }
}

/// What is stored under a key is found under it, and what is under the others stays.
pub proof fn law_stored_key_is_found(
    pairs: Seq<(Seq<char>, Seq<char>)>,
    key: Seq<char>,
    value: Seq<char>,
)
    ensures
        lookup(stored(pairs, key, value), key) == Some(value),
        forall|k: Seq<char>|
            k != key ==> lookup(stored(pairs, key, value), k) == #[trigger] lookup(pairs, k),
    decreases pairs.len(),
{
    let now = stored(pairs, key, value);
    if pairs.len() == 0 {
        assert(now.drop_first() =~= pairs);
    } else {
        let rest = pairs.drop_first();
        if pairs[0].0 == key {
            assert(now.drop_first() =~= rest);
        } else {
            law_stored_key_is_found(rest, key, value);
            assert(now.drop_first() =~= stored(rest, key, value));
            assert forall|k: Seq<char>| k != key implies lookup(now, k) == #[trigger] lookup(
                pairs,
                k,
            ) by {
                assert(lookup(stored(rest, key, value), k) == lookup(rest, k));
            }
        }
    }
}

/// A cleared key is not found, what is under the others stays, and clearing it again changes
/// nothing.
pub proof fn law_cleared_key_is_gone(pairs: Seq<(Seq<char>, Seq<char>)>, key: Seq<char>)
    ensures
        lookup(cleared(pairs, key), key) is None,
        forall|k: Seq<char>|
            k != key ==> lookup(cleared(pairs, key), k) == #[trigger] lookup(pairs, k),
        cleared(cleared(pairs, key), key) == cleared(pairs, key),
    decreases pairs.len(),
{
    if pairs.len() > 0 {
        let rest = pairs.drop_first();
        law_cleared_key_is_gone(rest, key);
        let now = cleared(pairs, key);
        if pairs[0].0 == key {
            assert forall|k: Seq<char>| k != key implies lookup(now, k) == #[trigger] lookup(
                pairs,
                k,
            ) by {
                assert(lookup(cleared(rest, key), k) == lookup(rest, k));
            }
        } else {
            assert(now.drop_first() =~= cleared(rest, key));
            assert forall|k: Seq<char>| k != key implies lookup(now, k) == #[trigger] lookup(
                pairs,
                k,
            ) by {
                assert(lookup(cleared(rest, key), k) == lookup(rest, k));
            }
        }
    }
}

proof fn lemma_names_among(pairs: Seq<(Seq<char>, Seq<char>)>, key: Seq<char>, value: Seq<char>)
    ensures
        forall|i: int|
            0 <= i < stored(pairs, key, value).len() ==> (#[trigger] stored(pairs, key, value)[i]).0
                == key || exists|j: int|
                0 <= j < pairs.len() && (#[trigger] pairs[j]).0 == stored(pairs, key, value)[i].0,
        forall|i: int|
            0 <= i < cleared(pairs, key).len() ==> exists|j: int|
                0 <= j < pairs.len() && (#[trigger] pairs[j]).0 == (#[trigger] cleared(
                    pairs,
                    key,
                )[i]).0,
    decreases pairs.len(),
{
    if pairs.len() > 0 {
        let rest = pairs.drop_first();
        lemma_names_among(rest, key, value);
        let now = stored(pairs, key, value);
        assert forall|i: int| 0 <= i < now.len() implies (#[trigger] now[i]).0 == key
            || exists|j: int| 0 <= j < pairs.len() && (#[trigger] pairs[j]).0 == now[i].0 by {
            if pairs[0].0 == key {
                if i > 0 {
                    assert(pairs[i].0 == now[i].0);
                }
            } else if i == 0 {
                assert(pairs[0].0 == now[0].0);
            } else {
                assert(now[i] == stored(rest, key, value)[i - 1]);
                if now[i].0 != key {
                    let j = choose|j: int|
                        0 <= j < rest.len() && (#[trigger] rest[j]).0 == stored(
                            rest,
                            key,
                            value,
                        )[i - 1].0;
                    assert(pairs[j + 1].0 == now[i].0);
                }
            }
        }
        let gone = cleared(pairs, key);
        assert forall|i: int| 0 <= i < gone.len() implies exists|j: int|
            0 <= j < pairs.len() && (#[trigger] pairs[j]).0 == (#[trigger] gone[i]).0 by {
            if pairs[0].0 == key {
                let j = choose|j: int|
                    0 <= j < rest.len() && (#[trigger] rest[j]).0 == cleared(rest, key)[i].0;
                assert(pairs[j + 1].0 == gone[i].0);
            } else if i == 0 {
                assert(pairs[0].0 == gone[0].0);
            } else {
                assert(gone[i] == cleared(rest, key)[i - 1]);
                let j = choose|j: int|
                    0 <= j < rest.len() && (#[trigger] rest[j]).0 == cleared(rest, key)[i - 1].0;
                assert(pairs[j + 1].0 == gone[i].0);
            }
        }
    }
}

/// Storing and clearing a key keep every name from occurring twice.
pub proof fn law_names_stay_once(
    pairs: Seq<(Seq<char>, Seq<char>)>,
    key: Seq<char>,
    value: Seq<char>,
)
    requires
        once(pairs),
    ensures
        once(stored(pairs, key, value)),
        once(cleared(pairs, key)),
    decreases pairs.len(),
{
    if pairs.len() > 0 {
        let rest = pairs.drop_first();
        assert forall|i: int, j: int| 0 <= i < j < rest.len() implies (#[trigger] rest[i]).0 != (
        #[trigger] rest[j]).0 by {
            assert(pairs[i + 1].0 != pairs[j + 1].0);
        }
        law_names_stay_once(rest, key, value);
        lemma_names_among(rest, key, value);
        let now = stored(pairs, key, value);
        assert forall|i: int, j: int| 0 <= i < j < now.len() implies (#[trigger] now[i]).0 != (
        #[trigger] now[j]).0 by {
            if pairs[0].0 == key {
                assert(now[j] == pairs[j]);
                assert(pairs[i].0 != pairs[j].0);
            } else {
                let s = stored(rest, key, value);
                assert(now[j] == s[j - 1]);
                if i > 0 {
                    assert(now[i] == s[i - 1]);
                } else if s[j - 1].0 != key {
                    let k = choose|k: int|
                        0 <= k < rest.len() && (#[trigger] rest[k]).0 == s[j - 1].0;
                    assert(pairs[0].0 != pairs[k + 1].0);
                }
            }
        }
        let gone = cleared(pairs, key);
        if pairs[0].0 != key {
            assert forall|i: int, j: int| 0 <= i < j < gone.len() implies (#[trigger] gone[i]).0
                != (#[trigger] gone[j]).0 by {
                let c = cleared(rest, key);
                assert(gone[j] == c[j - 1]);
                if i > 0 {
                    assert(gone[i] == c[i - 1]);
                } else {
                    let k = choose|k: int|
                        0 <= k < rest.len() && (#[trigger] rest[k]).0 == c[j - 1].0;
                    assert(pairs[0].0 != pairs[k + 1].0);
                }
            }
        }
    }
}

/// A key that is new goes behind the others.
pub proof fn lemma_stored_new(
    pairs: Seq<(Seq<char>, Seq<char>)>,
    key: Seq<char>,
    value: Seq<char>,
)
    requires
        forall|i: int| 0 <= i < pairs.len() ==> (#[trigger] pairs[i]).0 != key,
    ensures
        stored(pairs, key, value) == pairs.push((key, value)),
    decreases pairs.len(),
{
    if pairs.len() > 0 {
        let rest = pairs.drop_first();
        assert forall|i: int| 0 <= i < rest.len() implies (#[trigger] rest[i]).0 != key by {
            assert(pairs[i + 1].0 != key);
        }
        lemma_stored_new(rest, key, value);
        assert(pairs[0].0 != key);
        assert(stored(pairs, key, value) =~= pairs.push((key, value)));
    } else {
        assert(stored(pairs, key, value) =~= pairs.push((key, value)));
    }
}

/// The pairs stored one by one: of those with one key the last text counts.
pub open spec fn collected(pairs: Seq<(Seq<char>, Seq<char>)>) -> Seq<(Seq<char>, Seq<char>)>
    decreases pairs.len(),
{
    if pairs.len() == 0 {
        Seq::empty()
    } else {
        stored(collected(pairs.drop_last()), pairs.last().0, pairs.last().1)
    }
}

/// The text of the last pair with this key.
pub open spec fn last_of(pairs: Seq<(Seq<char>, Seq<char>)>, key: Seq<char>) -> Option<Seq<char>>
    decreases pairs.len(),
{
    if pairs.len() == 0 {
        None
    } else if pairs.last().0 == key {
        Some(pairs.last().1)
    } else {
        last_of(pairs.drop_last(), key)
    }
}

/// Collected pairs hold each key once, and under each key the last text that was given for it.
pub proof fn law_collected_keeps_the_last(pairs: Seq<(Seq<char>, Seq<char>)>)
    ensures
        once(collected(pairs)),
        forall|k: Seq<char>| #[trigger] lookup(collected(pairs), k) == last_of(pairs, k),
    decreases pairs.len(),
{
    if pairs.len() > 0 {
        let (key, value) = pairs.last();
        let before = collected(pairs.drop_last());
        law_collected_keeps_the_last(pairs.drop_last());
        law_names_stay_once(before, key, value);
        law_stored_key_is_found(before, key, value);
        assert forall|k: Seq<char>| #[trigger] lookup(collected(pairs), k) == last_of(pairs, k) by {
            assert(lookup(before, k) == last_of(pairs.drop_last(), k));
        }
    }
}

impl View for TextMap {
    type V = Seq<(Seq<char>, Seq<char>)>;

    open spec fn view(&self) -> Seq<(Seq<char>, Seq<char>)> {
        text_pairs(self.pairs@)
    }
}

pub fn lookup_in<'a>(pairs: &'a Vec<(String, String)>, key: &str) -> (r: Option<&'a String>)
    ensures
        match r {
            Some(v) => lookup(text_pairs(pairs@), key@) == Some(v@),
            None => lookup(text_pairs(pairs@), key@) is None,
        },
{
    let ghost all = text_pairs(pairs@);
    let mut i: usize = 0;
    assert(all.skip(0) =~= all);
    while i < pairs.len()
        invariant
            i <= pairs@.len(),
            all == text_pairs(pairs@),
            lookup(all, key@) == lookup(all.skip(i as int), key@),
        decreases pairs.len() - i,
    {
        assert(all.skip(i as int).drop_first() =~= all.skip(i + 1));
        assert(all[i as int] == (pairs@[i as int].0@, pairs@[i as int].1@));
        if same(pairs[i].0.as_str(), key) {
            return Some(&pairs[i].1);
        }
        i += 1;
    }
    None
}

impl TextMap {
    /// Whether every key occurs once.
    pub open spec fn wf(&self) -> bool {
        once(self@)
    }

    pub fn new() -> (r: TextMap)
        ensures
            r.wf(),
            r@ == Seq::<(Seq<char>, Seq<char>)>::empty(),
    {
        let r = TextMap { pairs: Vec::new() };
        assert(r@ =~= Seq::empty());
        r
    }

    pub fn get(&self, key: &str) -> (r: Option<&String>)
        ensures
            match r {
                Some(v) => lookup(self@, key@) == Some(v@),
                None => lookup(self@, key@) is None,
            },
    {
        lookup_in(&self.pairs, key)
    }

    /// Puts a text under a name, in place of the one that it had.
    pub fn insert(&mut self, key: &str, value: &str)
        ensures
            final(self)@ == stored(old(self)@, key@, value@),
            old(self).wf() ==> final(self).wf(),
    {
        proof {
            if old(self).wf() {
                law_names_stay_once(old(self)@, key@, value@);
            }
        }
        let ghost all = self@;
        let ghost given = self.pairs@;
        let mut i: usize = 0;
        assert(all.skip(0) =~= all);
        assert(all.take(0) + stored(all, key@, value@) =~= stored(all, key@, value@));
        while i < self.pairs.len()
            invariant
                i <= self.pairs@.len(),
                self.pairs@ == given,
                all == text_pairs(given),
                all == old(self)@,
                all.take(i as int) + stored(all.skip(i as int), key@, value@) == stored(
                    all,
                    key@,
                    value@,
                ),
            decreases self.pairs.len() - i,
        {
            let ghost rest = all.skip(i as int);
            assert(rest.drop_first() =~= all.skip(i + 1));
            assert(all[i as int] == (self.pairs@[i as int].0@, self.pairs@[i as int].1@));
            if same(self.pairs[i].0.as_str(), key) {
                self.pairs.set(i, (key.to_owned(), value.to_owned()));
                assert(self@ =~= all.take(i as int) + stored(rest, key@, value@));
                return;
            }
            assert(all.take(i + 1) + stored(all.skip(i + 1), key@, value@) =~= all.take(i as int)
                + stored(rest, key@, value@));
            i += 1;
        }
        self.pairs.push((key.to_owned(), value.to_owned()));
        assert(all.skip(i as int) =~= Seq::empty());
        assert(self@ =~= all.take(i as int) + seq![(key@, value@)]);
    }

    /// Takes a name out.
    pub fn remove(&mut self, key: &str)
        ensures
            final(self)@ == cleared(old(self)@, key@),
            old(self).wf() ==> final(self).wf(),
    {
        proof {
            if old(self).wf() {
                law_names_stay_once(old(self)@, key@, Seq::empty());
            }
        }
        let ghost all = self@;
        let mut out: Vec<(String, String)> = Vec::new();
        let mut i: usize = 0;
        assert(all.skip(0) =~= all);
        assert(text_pairs(out@) + cleared(all, key@) =~= cleared(all, key@));
        while i < self.pairs.len()
            invariant
                i <= self.pairs@.len(),
                all == text_pairs(self.pairs@),
                all == old(self)@,
                text_pairs(out@) + cleared(all.skip(i as int), key@) == cleared(all, key@),
            decreases self.pairs.len() - i,
        {
            let ghost rest = all.skip(i as int);
            assert(rest.drop_first() =~= all.skip(i + 1));
            assert(all[i as int] == (self.pairs@[i as int].0@, self.pairs@[i as int].1@));
            if !same(self.pairs[i].0.as_str(), key) {
                let p = (self.pairs[i].0.clone(), self.pairs[i].1.clone());
                let ghost had = text_pairs(out@);
                proof {
                    lemma_text_pairs_push(out@, p);
                }
                out.push(p);
                assert(text_pairs(out@) + cleared(all.skip(i + 1), key@) =~= had + cleared(
                    rest,
                    key@,
                ));
            }
            i += 1;
        }
        assert(all.skip(i as int) =~= Seq::empty());
        assert(text_pairs(out@) + Seq::<(Seq<char>, Seq<char>)>::empty() =~= text_pairs(out@));
        self.pairs = out;
    }

    /// The map of pairs; of those with one key the last one stays.
    pub fn from_pairs(pairs: &Vec<(String, String)>) -> (r: TextMap)
        ensures
            r@ == collected(text_pairs(pairs@)),
            r.wf(),
    {
        let ghost all = text_pairs(pairs@);
        let mut out = TextMap::new();
        let mut i: usize = 0;
        assert(all.take(0) =~= Seq::empty());
        while i < pairs.len()
            invariant
                i <= pairs@.len(),
                all == text_pairs(pairs@),
                out@ == collected(all.take(i as int)),
                out.wf(),
            decreases pairs.len() - i,
        {
            assert(all.take(i + 1).drop_last() =~= all.take(i as int));
            assert(all[i as int] == (pairs@[i as int].0@, pairs@[i as int].1@));
            out.insert(pairs[i].0.as_str(), pairs[i].1.as_str());
            i += 1;
        }
        assert(all.take(i as int) =~= all);
        out
    }

    /// The map with one pair.
    pub fn of1(key: &str, value: &str) -> (r: TextMap)
        ensures
            r@ == seq![(key@, value@)],
            r.wf(),
    {
        let mut pairs: Vec<(String, String)> = Vec::new();
        pairs.push((key.to_owned(), value.to_owned()));
        let r = TextMap { pairs };
        assert(r@ =~= seq![(key@, value@)]);
        r
    }
}

/// A provider: its name, its address, the environment variable that may hold its key, its wire
/// protocol, and what is added to each request.
#[derive(Debug)]
pub struct ModelProviderInfo {
    pub name: String,
    pub base_url: String,
    pub env_key: Option<String>,
    pub wire_api: WireApi,
    pub http_headers: Option<TextMap>,
    /// Headers whose value is the name of an environment variable.
    pub env_http_headers: Option<TextMap>,
    pub query_params: Option<TextMap>,
}

pub open spec fn opt_map(o: Option<TextMap>) -> Option<Seq<(Seq<char>, Seq<char>)>> {
    match o {
        Some(m) => Some(m@),
        None => None,
    }
}

#[verifier::ext_equal]
pub struct ProviderV {
    pub name: Seq<char>,
    pub base_url: Seq<char>,
    pub env_key: Option<Seq<char>>,
    pub wire_api: WireApi,
    pub http_headers: Option<Seq<(Seq<char>, Seq<char>)>>,
    pub env_http_headers: Option<Seq<(Seq<char>, Seq<char>)>>,
    pub query_params: Option<Seq<(Seq<char>, Seq<char>)>>,
}

impl View for ModelProviderInfo {
    type V = ProviderV;

    open spec fn view(&self) -> ProviderV {
        ProviderV {
            name: self.name@,
            base_url: self.base_url@,
            env_key: opt_view(self.env_key),
            wire_api: self.wire_api,
            http_headers: opt_map(self.http_headers),
            env_http_headers: opt_map(self.env_http_headers),
            query_params: opt_map(self.query_params),
        }
    }
}

impl Default for ModelProviderInfo {
    fn default() -> (r: Self)
        ensures
            r@ == (ProviderV {
                name: Seq::empty(),
                base_url: Seq::empty(),
                env_key: None,
                wire_api: WireApi::Responses,
                http_headers: None,
                env_http_headers: None,
                query_params: None,
            }),
    {
        ModelProviderInfo {
            name: String::new(),
            base_url: String::new(),
            env_key: None,
            wire_api: WireApi::Responses,
            http_headers: None,
            env_http_headers: None,
            query_params: None,
        }
    }
}

/// A text that is not just white space.
pub open spec fn filled(o: Option<Seq<char>>) -> bool {
    o matches Some(s) && trimmed(s).len() > 0
}

/// The key of a provider: the stored one, else that of the environment variable, where the
/// provider names one; a key of white space alone counts as none.
pub open spec fn key_of(
    has_var: bool,
    stored: Option<Seq<char>>,
    from_env: Option<Seq<char>>,
) -> Option<Seq<char>> {
    if filled(stored) {
        stored
    } else if has_var && filled(from_env) {
        from_env
    } else {
        None
    }
}

pub open spec fn openai_preset() -> ProviderV {
    ProviderV {
        name: "OpenAI"@,
        base_url: "https://api.openai.com/v1"@,
        env_key: Some("OPENAI_API_KEY"@),
        wire_api: WireApi::Responses,
        http_headers: None,
        env_http_headers: None,
        query_params: None,
    }
}

pub open spec fn ollama_preset() -> ProviderV {
    ProviderV {
        name: "Ollama (local)"@,
        base_url: "http://localhost:11434/v1"@,
        env_key: None,
        wire_api: WireApi::ChatCompletions,
        http_headers: None,
        env_http_headers: None,
        query_params: None,
    }
}

pub open spec fn minimax_preset() -> ProviderV {
    ProviderV {
        name: "MiniMax"@,
        base_url: "https://api.minimax.io/v1"@,
        env_key: Some("MINIMAX_API_KEY"@),
        wire_api: WireApi::Messages,
        http_headers: Some(seq![("anthropic-version"@, "2023-06-01"@)]),
        env_http_headers: None,
        query_params: None,
    }
}

pub open spec fn anthropic_preset() -> ProviderV {
    ProviderV {
        name: "Anthropic"@,
        base_url: "https://api.anthropic.com"@,
        env_key: Some("ANTHROPIC_API_KEY"@),
        wire_api: WireApi::Messages,
        http_headers: Some(seq![("anthropic-version"@, "2023-06-01"@)]),
        env_http_headers: None,
        query_params: None,
    }
}

fn nonblank(o: &Option<String>) -> (r: bool)
    ensures
        r == filled(opt_view(*o)),
{
    match o {
        Some(s) => !trim(s.as_str()).as_str().is_empty(),
        None => false,
    }
}

impl ModelProviderInfo {
    /// The API key, from the stored one and the value of the environment variable `env_key`.
    pub fn api_key(&self, stored: Option<String>, from_env: Option<String>) -> (r: Option<String>)
        ensures
            opt_view(r) == key_of(self.env_key is Some, opt_view(stored), opt_view(from_env)),
    {
        if nonblank(&stored) {
            return stored;
        }
        if self.env_key.is_some() && nonblank(&from_env) {
            return from_env;
        }
        None
    }

    pub fn openai() -> (r: Self)
        ensures
            r@ == openai_preset(),
    {
        ModelProviderInfo {
            name: "OpenAI".to_owned(),
            base_url: "https://api.openai.com/v1".to_owned(),
            env_key: Some("OPENAI_API_KEY".to_owned()),
            wire_api: WireApi::Responses,
            http_headers: None,
            env_http_headers: None,
            query_params: None,
        }
    }

    pub fn ollama() -> (r: Self)
        ensures
            r@ == ollama_preset(),
    {
        ModelProviderInfo {
            name: "Ollama (local)".to_owned(),
            base_url: "http://localhost:11434/v1".to_owned(),
            env_key: None,
            wire_api: WireApi::ChatCompletions,
            http_headers: None,
            env_http_headers: None,
            query_params: None,
        }
    }

    pub fn minimax() -> (r: Self)
        ensures
            r@ == minimax_preset(),
    {
        ModelProviderInfo {
            name: "MiniMax".to_owned(),
            base_url: "https://api.minimax.io/v1".to_owned(),
            env_key: Some("MINIMAX_API_KEY".to_owned()),
            wire_api: WireApi::Messages,
            http_headers: Some(TextMap::of1("anthropic-version", "2023-06-01")),
            env_http_headers: None,
            query_params: None,
        }
    }

    pub fn anthropic() -> (r: Self)
        ensures
            r@ == anthropic_preset(),
    {
        ModelProviderInfo {
            name: "Anthropic".to_owned(),
            base_url: "https://api.anthropic.com".to_owned(),
            env_key: Some("ANTHROPIC_API_KEY".to_owned()),
            wire_api: WireApi::Messages,
            http_headers: Some(TextMap::of1("anthropic-version", "2023-06-01")),
            env_http_headers: None,
            query_params: None,
        }
    }
}

/// The models offered for a provider of this name; those of `Anthropic` are given.
pub open spec fn models_of(name: Seq<char>, given: Seq<Seq<char>>) -> Seq<Seq<char>> {
    if name == "OpenAI"@ {
        seq!["gpt-5"@, "gpt-5-mini"@, "gpt-4.1"@, "gpt-4.1-mini"@, "o3"@, "o4-mini"@]
    } else if name == "Anthropic"@ {
        given
    } else if name == "MiniMax"@ {
        seq!["MiniMax-M3"@, "MiniMax-M2"@]
    } else {
        seq!["custom"@]
    }
}

/// The models that are offered for a provider. Those of `Anthropic` are no constants of the
/// library: the caller gives them.
pub fn models_for(preset: &ModelProviderInfo, given: &Vec<String>) -> (r: Vec<String>)
    ensures
        views(r@) == models_of(preset.name@, views(given@)),
{
    let mut r: Vec<String> = Vec::new();
    let name = preset.name.as_str();
    if same(name, "OpenAI") {
        r.push("gpt-5".to_owned());
        r.push("gpt-5-mini".to_owned());
        r.push("gpt-4.1".to_owned());
        r.push("gpt-4.1-mini".to_owned());
        r.push("o3".to_owned());
        r.push("o4-mini".to_owned());
    } else if same(name, "Anthropic") {
        return copy_list(given);
    } else if same(name, "MiniMax") {
        r.push("MiniMax-M3".to_owned());
        r.push("MiniMax-M2".to_owned());
    } else {
        r.push("custom".to_owned());
    }
    assert(views(r@) =~= models_of(preset.name@, views(given@)));
    r
}

/// The presets, each with its id.
pub fn built_in_presets() -> (r: Vec<(String, ModelProviderInfo)>)
    ensures
        r@.map_values(|p: (String, ModelProviderInfo)| (p.0@, p.1@)) == seq![
            ("openai"@, openai_preset()),
            ("anthropic"@, anthropic_preset()),
            ("minimax"@, minimax_preset()),
            ("ollama"@, ollama_preset()),
        ],
{
    let mut r: Vec<(String, ModelProviderInfo)> = Vec::new();
    r.push(("openai".to_owned(), ModelProviderInfo::openai()));
    r.push(("anthropic".to_owned(), ModelProviderInfo::anthropic()));
    r.push(("minimax".to_owned(), ModelProviderInfo::minimax()));
    r.push(("ollama".to_owned(), ModelProviderInfo::ollama()));
    r
}

} // verus!
