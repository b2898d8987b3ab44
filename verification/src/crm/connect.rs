//! Connecting a CRM: from a curl command to a description that a model drafts.

use crate::crm::check::{check, check_of, snapshot_known, CheckReport};
use crate::crm::source::{
    bad_key_text, parse, records, records_of, spec_read, ticket_of, transform, MapSpec, MapSpecV,
    RequestSpec, RequestSpecV,
};
use crate::error::Error;
use crate::json::{json_normal, json_pretty, list_view, toml_parsed, Json, JsonV};
use crate::provider::{
    collected, lemma_text_pairs_push, text_pairs, ModelProviderInfo, ProviderV, TextMap,
};
use crate::snapshot::Snapshot;
use crate::strs::{
    after_prefix, cat2, cat3, cat5, cat7, chars_of, find_at, find_from, join, joined,
    lemma_views_push, lossy_text, lossy_text_of, occurs_at, opt_view, push_char, replace, replaced,
    same, slice_text, space, split, split_on, split_once, split_once_spec, stands_at,
    starts_with, strip_prefix, trim, trimmed, views,
};
use crate::text::{byte_len, bytes_up_to, cut, truncate_chars};
use vstd::prelude::*;

pub mod laws;
use vstd::string::StringExecFns;
use vstd::utf8::encode_utf8;

verus! {

// Tokens

/// A reader of a command line: the tokens so far, the one that is being read, and the quote that is
/// open.
#[verifier::ext_equal]
pub struct ShellV {
    pub done: Seq<Seq<char>>,
    pub cur: Seq<char>,
    pub quote: Option<char>,
}

/// The reader with one more character: a quote groups, white space separates.
pub open spec fn shell_with(s: ShellV, c: char) -> ShellV {
    match s.quote {
        Some(q) => if c == q {
            ShellV { quote: None, ..s }
        } else {
            ShellV { cur: s.cur.push(c), ..s }
        },
        None => if c == '\'' || c == '"' {
            ShellV { quote: Some(c), ..s }
        } else if crate::strs::is_space(c) {
            if s.cur.len() > 0 {
                ShellV { done: s.done.push(s.cur), cur: Seq::empty(), ..s }
            } else {
                s
            }
        } else {
            ShellV { cur: s.cur.push(c), ..s }
        },
    }
}

pub open spec fn shell_read(s: Seq<char>) -> ShellV
    decreases s.len(),
{
    if s.len() == 0 {
        ShellV { done: Seq::empty(), cur: Seq::empty(), quote: None }
    } else {
        shell_with(shell_read(s.drop_last()), s.last())
    }
}

/// The tokens of a command line; a backslash at the end of a line continues it.
pub open spec fn tokens_of(s: Seq<char>) -> Seq<Seq<char>> {
    let r = shell_read(replaced(s, "\\\n"@, " "@));
    if r.cur.len() > 0 {
        r.done.push(r.cur)
    } else {
        r.done
    }
}

pub fn shell_tokens(s: &str) -> (r: Vec<String>)
    ensures
        views(r@) == tokens_of(s@),
{
    proof {
        reveal_strlit("\\\n");
    }
    let flat = replace(s, "\\\n", " ");
    let v = chars_of(flat.as_str());
    let mut out: Vec<String> = Vec::new();
    let mut cur = String::new();
    let mut quote: Option<char> = None;
    let mut i: usize = 0;
    assert(views(out@) =~= Seq::empty());
    assert(v@.take(0) =~= Seq::empty());
    while i < v.len()
        invariant
            i <= v@.len(),
            shell_read(v@.take(i as int)) == (ShellV { done: views(out@), cur: cur@, quote }),
        decreases v.len() - i,
    {
        assert(v@.take(i + 1).drop_last() =~= v@.take(i as int));
        let c = v[i];
        match quote {
            Some(q) => {
                if c == q {
                    quote = None;
                } else {
                    push_char(&mut cur, c);
                }
            },
            None => {
                if c == '\'' || c == '"' {
                    quote = Some(c);
                } else if space(c) {
                    if !cur.as_str().is_empty() {
                        proof {
                            lemma_views_push(out@, cur);
                        }
                        out.push(cur);
                        cur = String::new();
                    }
                } else {
                    push_char(&mut cur, c);
                }
            },
        }
        i += 1;
    }
    assert(v@.take(i as int) =~= v@);
    if !cur.as_str().is_empty() {
        proof {
            lemma_views_push(out@, cur);
        }
        out.push(cur);
    }
    out
}

// Decoding

pub open spec fn hex_value(b: u8) -> Option<u8> {
    if 48 <= b <= 57 {
        Some((b - 48) as u8)
    } else if 97 <= b <= 102 {
        Some((b - 87) as u8)
    } else if 65 <= b <= 70 {
        Some((b - 55) as u8)
    } else {
        None
    }
}

/// The byte that two characters denote in hexadecimal; a plus sign may stand before one digit.
pub open spec fn hex_byte(a: u8, b: u8) -> Option<u8> {
    match hex_value(b) {
        Some(low) => match hex_value(a) {
            Some(high) => Some((high * 16 + low) as u8),
            None => if a == 43 {
                Some(low)
            } else {
                None
            },
        },
        None => None,
    }
}

/// The bytes from `i` on, decoded: `%` and two digits stand for a byte, `+` for a space.
pub open spec fn decoded_from(b: Seq<u8>, i: int) -> Seq<u8>
    decreases b.len() - i,
{
    if i < 0 || i >= b.len() {
        Seq::empty()
    } else if b[i] == 37 && i + 2 < b.len() && hex_byte(b[i + 1], b[i + 2]) is Some {
        seq![hex_byte(b[i + 1], b[i + 2])->0] + decoded_from(b, i + 3)
    } else if b[i] == 43 {
        seq![32u8] + decoded_from(b, i + 1)
    } else {
        seq![b[i]] + decoded_from(b, i + 1)
    }
}

/// A key or a value of a query as it was meant.
pub open spec fn percent_decoded(s: Seq<char>) -> Seq<char> {
    lossy_text_of(decoded_from(encode_utf8(s), 0))
}

fn hex(b: u8) -> (r: Option<u8>)
    ensures
        r == hex_value(b),
        r matches Some(v) ==> v < 16,
{
    if 48 <= b && b <= 57 {
        Some(b - 48)
    } else if 97 <= b && b <= 102 {
        Some(b - 87)
    } else if 65 <= b && b <= 70 {
        Some(b - 55)
    } else {
        None
    }
}

fn hex_pair(a: u8, b: u8) -> (r: Option<u8>)
    ensures
        r == hex_byte(a, b),
{
    match hex(b) {
        Some(low) => match hex(a) {
            Some(high) => Some(high * 16 + low),
            None => if a == 43 {
                Some(low)
            } else {
                None
            },
        },
        None => None,
    }
}

pub fn percent_decode(s: &str) -> (r: String)
    ensures
        r@ == percent_decoded(s@),
{
    let bytes = s.as_bytes();
    let ghost all = encode_utf8(s@);
    let mut out: Vec<u8> = Vec::new();
    let mut i: usize = 0;
    let n: usize = bytes.len();
    assert(out@ + decoded_from(all, 0) =~= decoded_from(all, 0));
    while i < n
        invariant
            i <= n == bytes@.len(),
            bytes@ == all,
            out@ + decoded_from(all, i as int) == decoded_from(all, 0),
        decreases n - i,
    {
        let ghost had = out@;
        let ghost rest = decoded_from(all, i as int);
        let b: u8 = bytes[i];
        let pair: Option<u8> = if b == 37 && n - i > 2 {
            hex_pair(bytes[i + 1], bytes[i + 2])
        } else {
            None
        };
        match pair {
            Some(x) => {
                out.push(x);
                i += 3;
            },
            None => {
                if b == 43 {
                    out.push(32);
                } else {
                    out.push(b);
                }
                i += 1;
            },
        }
        assert(out@ + decoded_from(all, i as int) =~= had + rest);
    }
    assert(out@ =~= out@ + decoded_from(all, i as int));
    lossy_text(&out)
}

// The command

/// What the user gives before a model drafts the rest.
#[derive(Debug)]
pub struct ConnectInput {
    pub name: String,
    /// The address without its query.
    pub url: String,
    pub headers: Vec<(String, String)>,
    pub query: Vec<(String, String)>,
    pub method: String,
    pub body: Option<String>,
}

/// What a curl command says, before its address is split.
#[verifier::ext_equal]
pub struct CurlV {
    pub url: Seq<char>,
    pub method: Seq<char>,
    pub headers: Seq<(Seq<char>, Seq<char>)>,
    pub body: Option<Seq<char>>,
}

pub open spec fn is_data_flag(t: Seq<char>) -> bool {
    t == "-d"@ || t == "--data"@ || t == "--data-raw"@
}

/// The command from the token at `i` on: a flag takes the token behind it, a token that starts
/// with `http` is the address, anything else is passed over.
pub open spec fn curl_from(toks: Seq<Seq<char>>, i: int, c: CurlV) -> CurlV
    decreases toks.len() + 1 - i,
{
    if i < 0 || i >= toks.len() {
        c
    } else {
        let t = toks[i];
        let next = if i + 1 < toks.len() {
            Some(toks[i + 1])
        } else {
            None
        };
        if t == "-X"@ || t == "--request"@ {
            curl_from(
                toks,
                i + 2,
                CurlV {
                    method: match next {
                        Some(m) => m,
                        None => Seq::empty(),
                    },
                    ..c
                },
            )
        } else if t == "-H"@ || t == "--header"@ {
            curl_from(
                toks,
                i + 2,
                match next {
                    Some(h) => match split_once_spec(h, ':') {
                        Some((k, v)) => CurlV {
                            headers: c.headers.push((trimmed(k), trimmed(v))),
                            ..c
                        },
                        None => c,
                    },
                    None => c,
                },
            )
        } else if is_data_flag(t) {
            curl_from(toks, i + 2, CurlV { body: next, ..c })
        } else if t != "curl"@ && occurs_at(t, "http"@, 0) {
            curl_from(toks, i + 1, CurlV { url: t, ..c })
        } else {
            curl_from(toks, i + 1, c)
        }
    }
}

pub open spec fn empty_curl() -> CurlV {
    CurlV { url: Seq::empty(), method: Seq::empty(), headers: Seq::empty(), body: None }
}

/// The pairs of the pieces `0..n` of a query, decoded; empty pieces are passed over.
pub open spec fn query_pairs(pieces: Seq<Seq<char>>, n: int) -> Seq<(Seq<char>, Seq<char>)>
    decreases n,
{
    if n <= 0 {
        Seq::empty()
    } else {
        let before = query_pairs(pieces, n - 1);
        let p = pieces[n - 1];
        if p.len() == 0 {
            before
        } else {
            match split_once_spec(p, '=') {
                Some((k, v)) => before.push((percent_decoded(k), percent_decoded(v))),
                None => before.push((percent_decoded(p), percent_decoded(Seq::empty()))),
            }
        }
    }
}

/// The address before its query.
pub open spec fn url_base(url: Seq<char>) -> Seq<char> {
    match split_once_spec(url, '?') {
        Some((base, _)) => base,
        None => url,
    }
}

/// The query of an address.
pub open spec fn url_query(url: Seq<char>) -> Seq<(Seq<char>, Seq<char>)> {
    match split_once_spec(url, '?') {
        Some((_, q)) => query_pairs(split_on(q, '&'), split_on(q, '&').len() as int),
        None => Seq::empty(),
    }
}

/// The method of a command: its own, or that which goes with its body.
pub open spec fn curl_method(c: CurlV) -> Seq<char> {
    if c.method.len() > 0 {
        c.method
    } else if c.body is Some {
        "POST"@
    } else {
        "GET"@
    }
}

fn next_token(toks: &Vec<String>, i: usize) -> (r: Option<String>)
    requires
        i < toks@.len(),
    ensures
        opt_view(r) == (if i + 1 < toks@.len() {
            Some(views(toks@)[i + 1])
        } else {
            None
        }),
{
    if i < toks.len() - 1 {
        Some(toks[i + 1].clone())
    } else {
        None
    }
}

fn read_query(q: &str) -> (r: Vec<(String, String)>)
    ensures
        text_pairs(r@) == query_pairs(split_on(q@, '&'), split_on(q@, '&').len() as int),
{
    let pieces = split(q, '&');
    let ghost all = split_on(q@, '&');
    let mut out: Vec<(String, String)> = Vec::new();
    let mut i: usize = 0;
    assert(text_pairs(out@) =~= Seq::empty());
    while i < pieces.len()
        invariant
            i <= pieces@.len(),
            views(pieces@) == all,
            text_pairs(out@) == query_pairs(all, i as int),
        decreases pieces.len() - i,
    {
        assert(all[i as int] == pieces@[i as int]@);
        let p = pieces[i].as_str();
        if !p.is_empty() {
            let pair = match split_once(p, '=') {
                Some((k, v)) => (percent_decode(k.as_str()), percent_decode(v.as_str())),
                None => (percent_decode(p), percent_decode(String::new().as_str())),
            };
            proof {
                lemma_text_pairs_push(out@, pair);
            }
            out.push(pair);
        }
        i += 1;
    }
    assert(views(pieces@).len() == pieces@.len());
    out
}

impl ConnectInput {
    /// The request that this describes. Of headers and parameters with one name the last one stays.
    pub fn request_spec(&self) -> (r: RequestSpec)
        ensures
            r@ == (RequestSpecV {
                url: self.url@,
                method: self.method@,
                headers: collected(text_pairs(self.headers@)),
                query: collected(text_pairs(self.query@)),
                body: opt_view(self.body),
            }),
            r.headers.wf(),
            r.query.wf(),
    {
        RequestSpec {
            url: self.url.clone(),
            method: self.method.clone(),
            headers: TextMap::from_pairs(&self.headers),
            query: TextMap::from_pairs(&self.query),
            body: crate::strs::copy_opt(&self.body),
        }
    }

    /// Reads a curl command, as the documents of an API hand it out.
    pub fn from_curl(name: String, curl: &str) -> (r: Result<ConnectInput, Error>)
        ensures
            ({
                let c = curl_from(tokens_of(curl@), 0, empty_curl());
                if c.url.len() == 0 {
                    r matches Err(Error::Config(m)) && m@
                        == "no URL found in the curl command - paste it exactly as the API docs show"@
                } else {
                    r matches Ok(i) && {
                        &&& i.name@ == name@
                        &&& i.url@ == url_base(c.url)
                        &&& text_pairs(i.headers@) == c.headers
                        &&& text_pairs(i.query@) == url_query(c.url)
                        &&& i.method@ == curl_method(c)
                        &&& opt_view(i.body) == c.body
                    }
                }
            }),
    {
        let toks = shell_tokens(curl);
        let ghost all = tokens_of(curl@);
        let mut url = String::new();
        let mut method = String::new();
        let mut headers: Vec<(String, String)> = Vec::new();
        let mut body: Option<String> = None;
        let mut i: usize = 0;
        let n: usize = toks.len();
        assert(text_pairs(headers@) =~= Seq::empty());
        assert(views(toks@).len() == toks@.len());
        while i < n
            invariant
                n == toks@.len(),
                views(toks@) == all,
                all.len() == n,
                curl_from(all, 0, empty_curl()) == curl_from(
                    all,
                    i as int,
                    CurlV {
                        url: url@,
                        method: method@,
                        headers: text_pairs(headers@),
                        body: opt_view(body),
                    },
                ),
            decreases n - i,
        {
            let t = toks[i].as_str();
            assert(all[i as int] == t@);
            let mut step: usize = 1;
            if same(t, "-X") || same(t, "--request") {
                method = match next_token(&toks, i) {
                    Some(m) => m,
                    None => String::new(),
                };
                step = 2;
            } else if same(t, "-H") || same(t, "--header") {
                match next_token(&toks, i) {
                    Some(h) => match split_once(h.as_str(), ':') {
                        Some((k, v)) => {
                            let p = (trim(k.as_str()), trim(v.as_str()));
                            proof {
                                lemma_text_pairs_push(headers@, p);
                            }
                            headers.push(p);
                        },
                        None => {},
                    },
                    None => {},
                }
                step = 2;
            } else if same(t, "-d") || same(t, "--data") || same(t, "--data-raw") {
                body = next_token(&toks, i);
                step = 2;
            } else if !same(t, "curl") && starts_with(t, "http") {
                url = t.to_owned();
            }
            if step == 2 && i == n - 1 {
                i = n;
            } else {
                i = i + step;
            }
        }
        if url.as_str().is_empty() {
            return Err(
                Error::Config(
                    "no URL found in the curl command - paste it exactly as the API docs show".to_owned(),
                ),
            );
        }
        if method.as_str().is_empty() {
            method = if body.is_some() {
                "POST".to_owned()
            } else {
                "GET".to_owned()
            };
        }
        match split_once(url.as_str(), '?') {
            Some((base, q)) => {
                let query = read_query(q.as_str());
                Ok(ConnectInput { name, url: base, headers, query, method, body })
            },
            None => {
                let query: Vec<(String, String)> = Vec::new();
                assert(text_pairs(query@) =~= Seq::empty());
                Ok(ConnectInput { name, url, headers, query, method, body })
            },
        }
    }
}

// Drafting

/// How much of a sample a model is shown, in bytes.
pub const SAMPLE_CAP_BYTES: usize = 6000;

/// A sample as a model is shown it.
pub open spec fn sample_text(j: JsonV) -> Seq<char> {
    let s = json_pretty(json_normal(j));
    if byte_len(s) <= SAMPLE_CAP_BYTES {
        s
    } else {
        cut(s, SAMPLE_CAP_BYTES as int) + "\n... (truncated)"@
    }
}

pub fn truncated_json(v: &Json) -> (r: String)
    ensures
        r@ == sample_text(v@),
{
    let s = v.to_pretty();
    if bytes_up_to(s.as_str(), SAMPLE_CAP_BYTES) <= SAMPLE_CAP_BYTES {
        return s;
    }
    cat2(truncate_chars(s.as_str(), SAMPLE_CAP_BYTES), "\n... (truncated)")
}

/// Whether a character may stand in a key without quotes, dots between its parts among them.
pub open spec fn is_key_char(c: char) -> bool {
    'a' <= c <= 'z' || 'A' <= c <= 'Z' || '0' <= c <= '9' || c == '_' || c == '-' || c == '.'
}

/// Where a key that goes on at `i`, inside of a quote or not, ends.
pub open spec fn key_end(t: Seq<char>, i: int, quote: Option<char>) -> int
    decreases t.len() - i,
{
    if i < 0 || i >= t.len() {
        i
    } else {
        match quote {
            Some(q) => if t[i] == '\n' {
                i
            } else if t[i] == q {
                key_end(t, i + 1, None)
            } else {
                key_end(t, i + 1, quote)
            },
            None => if is_key_char(t[i]) {
                key_end(t, i + 1, None)
            } else if t[i] == '"' || t[i] == '\'' {
                key_end(t, i + 1, Some(t[i]))
            } else {
                i
            },
        }
    }
}

/// Where the blanks from `i` on end.
pub open spec fn blank_end(t: Seq<char>, i: int) -> int
    decreases t.len() - i,
{
    if 0 <= i < t.len() && (t[i] == ' ' || t[i] == '\t') {
        blank_end(t, i + 1)
    } else {
        i
    }
}

pub open spec fn is_at(t: Seq<char>, i: int, c: char) -> bool {
    0 <= i < t.len() && t[i] == c
}

/// Where the blanks behind a key end that stands behind blanks from `i` on, where there is one.
pub open spec fn behind_key(t: Seq<char>, i: int) -> Option<int> {
    let start = blank_end(t, i);
    let end = key_end(t, start, None);
    if end > start {
        Some(blank_end(t, end))
    } else {
        None
    }
}

/// Whether a line that starts at `i` starts with a key and its equals sign.
pub open spec fn starts_key(t: Seq<char>, i: int) -> bool {
    behind_key(t, i) matches Some(e) && is_at(t, e, '=')
}

/// Whether a line that starts at `i` starts with the name of a table in one or two brackets.
pub open spec fn starts_table(t: Seq<char>, i: int) -> bool {
    let b = blank_end(t, i);
    if is_at(t, b, '[') && is_at(t, b + 1, '[') {
        behind_key(t, b + 2) matches Some(e) && is_at(t, e, ']') && is_at(t, e + 1, ']')
    } else {
        is_at(t, b, '[') && (behind_key(t, b + 1) matches Some(e) && is_at(t, e, ']'))
    }
}

/// Whether the key `name` and its equals sign start at `i`, in the middle of a line too: a description
/// may follow prose on one line, and this is the key that it starts with.
pub open spec fn starts_name(t: Seq<char>, i: int) -> bool {
    &&& i == 0 || !is_key_char(t[i - 1])
    &&& occurs_at(t, "name"@, i)
    &&& is_at(t, blank_end(t, i + 4), '=')
}

/// Whether TOML starts at `i`.
pub open spec fn starts_toml(t: Seq<char>, i: int) -> bool {
    ||| (i == 0 || is_at(t, i - 1, '\n')) && (starts_key(t, i) || starts_table(t, i))
    ||| starts_name(t, i)
}

/// Where TOML first starts, from `i` on.
pub open spec fn toml_start(t: Seq<char>, i: int) -> Option<int>
    decreases t.len() - i,
{
    if i >= t.len() {
        None
    } else if starts_toml(t, i) {
        Some(i)
    } else {
        toml_start(t, i + 1)
    }
}

/// The TOML of an answer without a fence: from the first key or table on, or from the first `name`
/// where there is none.
pub open spec fn bare_toml(t: Seq<char>) -> Seq<char> {
    match toml_start(t, 0) {
        Some(i) => trimmed(t.skip(i)),
        None => match find_from(t, "name"@, 0) {
            Some(i) => trimmed(t.skip(i)),
            None => t,
        },
    }
}

/// The TOML in an answer that may put it in a fence or behind prose.
pub open spec fn toml_in(text: Seq<char>) -> Seq<char> {
    let t = trimmed(text);
    match find_from(t, "```"@, 0) {
        Some(start) => {
            let behind = t.skip(start + 3);
            let inner = match after_prefix(behind, "toml"@) {
                Some(rest) => rest,
                None => behind,
            };
            match find_from(inner, "```"@, 0) {
                Some(end) => trimmed(inner.take(end)),
                None => bare_toml(t),
            }
        },
        None => bare_toml(t),
    }
}

fn find_key_end(v: &Vec<char>, from: usize) -> (r: usize)
    requires
        from <= v@.len(),
    ensures
        r == key_end(v@, from as int, None),
        from <= r <= v@.len(),
{
    let mut i: usize = from;
    let mut quote: Option<char> = None;
    while i < v.len()
        invariant
            from <= i <= v@.len(),
            key_end(v@, i as int, quote) == key_end(v@, from as int, None),
        decreases v.len() - i,
    {
        let c = v[i];
        match quote {
            Some(q) => {
                if c == '\n' {
                    return i;
                }
                if c == q {
                    quote = None;
                }
            },
            None => {
                if c == '"' || c == '\'' {
                    quote = Some(c);
                } else if !is_key(c) {
                    return i;
                }
            },
        }
        i += 1;
    }
    i
}

fn find_blank_end(v: &Vec<char>, from: usize) -> (r: usize)
    requires
        from <= v@.len(),
    ensures
        r == blank_end(v@, from as int),
        from <= r <= v@.len(),
{
    let mut i: usize = from;
    while i < v.len() && (v[i] == ' ' || v[i] == '\t')
        invariant
            from <= i <= v@.len(),
            blank_end(v@, i as int) == blank_end(v@, from as int),
        decreases v.len() - i,
    {
        i += 1;
    }
    i
}

fn holds_at(v: &Vec<char>, i: usize, c: char) -> (r: bool)
    ensures
        r == is_at(v@, i as int, c),
{
    i < v.len() && v[i] == c
}

fn find_behind_key(v: &Vec<char>, from: usize) -> (r: Option<usize>)
    requires
        from <= v@.len(),
    ensures
        match r {
            Some(e) => behind_key(v@, from as int) == Some(e as int) && e <= v@.len(),
            None => behind_key(v@, from as int) is None,
        },
{
    let start = find_blank_end(v, from);
    let end = find_key_end(v, start);
    if end > start {
        Some(find_blank_end(v, end))
    } else {
        None
    }
}

fn is_toml_line(v: &Vec<char>, i: usize) -> (r: bool)
    requires
        i <= v@.len(),
    ensures
        r == (starts_key(v@, i as int) || starts_table(v@, i as int)),
{
    match find_behind_key(v, i) {
        Some(e) => if holds_at(v, e, '=') {
            return true;
        },
        None => {},
    }
    let n: usize = v.len();
    let b = find_blank_end(v, i);
    if b >= n || !holds_at(v, b, '[') {
        return false;
    }
    if holds_at(v, b + 1, '[') {
        match find_behind_key(v, b + 2) {
            Some(e) => holds_at(v, e, ']') && holds_at(v, e + 1, ']'),
            None => false,
        }
    } else {
        match find_behind_key(v, b + 1) {
            Some(e) => holds_at(v, e, ']'),
            None => false,
        }
    }
}

fn is_key(c: char) -> (r: bool)
    ensures
        r == is_key_char(c),
{
    'a' <= c && c <= 'z' || 'A' <= c && c <= 'Z' || '0' <= c && c <= '9' || c == '_' || c == '-'
        || c == '.'
}

fn is_name_at(v: &Vec<char>, name: &Vec<char>, i: usize) -> (r: bool)
    requires
        i < v@.len(),
        name@ == "name"@,
    ensures
        r == starts_name(v@, i as int),
{
    proof {
        reveal_strlit("name");
    }
    let n: usize = v.len();
    if i > 0 && is_key(v[i - 1]) {
        return false;
    }
    if n - i < 4 || !stands_at(v, name, i) {
        return false;
    }
    let end = find_blank_end(v, i + 4);
    holds_at(v, end, '=')
}

fn bare(t: &str) -> (r: String)
    ensures
        r@ == bare_toml(t@),
{
    let v = chars_of(t);
    let name = chars_of("name");
    let mut i: usize = 0;
    while i < v.len()
        invariant
            i <= v@.len(),
            v@ == t@,
            name@ == "name"@,
            toml_start(t@, i as int) == toml_start(t@, 0),
        decreases v.len() - i,
    {
        if (i == 0 || v[i - 1] == '\n') && is_toml_line(&v, i) || is_name_at(&v, &name, i) {
            assert(v@.subrange(i as int, v@.len() as int) =~= t@.skip(i as int));
            return trim(slice_text(&v, i, v.len()).as_str());
        }
        i += 1;
    }
    match find_at(&v, &name, 0) {
        Some(k) => {
            assert(v@.subrange(k as int, v@.len() as int) =~= t@.skip(k as int));
            trim(slice_text(&v, k, v.len()).as_str())
        },
        None => t.to_owned(),
    }
}

pub fn extract_toml(text: &str) -> (r: String)
    ensures
        r@ == toml_in(text@),
{
    let t = trim(text);
    let v = chars_of(t.as_str());
    let fence = chars_of("```");
    let n: usize = v.len();
    proof {
        reveal_strlit("```");
    }
    match find_at(&v, &fence, 0) {
        Some(start) => {
            assert(v@.subrange(start + 3, v@.len() as int) =~= t@.skip(start + 3));
            let behind = slice_text(&v, start + 3, n);
            let inner = match strip_prefix(behind.as_str(), "toml") {
                Some(rest) => rest,
                None => behind,
            };
            let w = chars_of(inner.as_str());
            match find_at(&w, &fence, 0) {
                Some(end) => {
                    assert(w@.subrange(0, end as int) =~= inner@.take(end as int));
                    trim(slice_text(&w, 0, end).as_str())
                },
                None => bare(t.as_str()),
            }
        },
        None => bare(t.as_str()),
    }
}

/// Pairs as they are shown to a model, one to a line.
pub open spec fn pairs_text(pairs: Seq<(Seq<char>, Seq<char>)>) -> Seq<char> {
    joined(
        pairs.map_values(
            |p: (Seq<char>, Seq<char>)| "\""@ + p.0 + "\" = \""@ + p.1 + "\""@,
        ),
        "\n"@,
    )
}

fn show_pairs(v: &Vec<(String, String)>) -> (r: String)
    ensures
        r@ == pairs_text(text_pairs(v@)),
{
    let ghost want = text_pairs(v@).map_values(
        |p: (Seq<char>, Seq<char>)| "\""@ + p.0 + "\" = \""@ + p.1 + "\""@,
    );
    let mut parts: Vec<String> = Vec::new();
    let mut i: usize = 0;
    assert(views(parts@) =~= want.take(0));
    while i < v.len()
        invariant
            i <= v@.len(),
            want == text_pairs(v@).map_values(
                |p: (Seq<char>, Seq<char>)| "\""@ + p.0 + "\" = \""@ + p.1 + "\""@,
            ),
            views(parts@) == want.take(i as int),
        decreases v.len() - i,
    {
        let line = cat5("\"", v[i].0.as_str(), "\" = \"", v[i].1.as_str(), "\"");
        proof {
            assert(text_pairs(v@)[i as int] == (v@[i as int].0@, v@[i as int].1@));
            lemma_views_push(parts@, line);
            assert(want.take(i + 1) =~= want.take(i as int).push(line@));
        }
        parts.push(line);
        i += 1;
    }
    assert(want.take(i as int) =~= want);
    join(&parts, "\n")
}

/// What a model is asked: the endpoint, one sample of its replies, and what was wrong with the
/// draft before.
pub open spec fn prompt_of(i: ConnectInput, sample: Seq<char>, feedback: Seq<char>) -> Seq<char> {
    let body = match i.body {
        Some(b) => "Request body (use verbatim as request.body): "@ + b@ + "\n"@,
        None => Seq::empty(),
    };
    "CRM name: "@ + i.name@ + "\nEndpoint URL (use verbatim): "@ + i.url@ + "\nHTTP method: "@
        + i.method@ + "\n"@ + body + "Headers (use verbatim under [request.headers]):\n"@
        + pairs_text(text_pairs(i.headers@))
        + "\nQuery params (use verbatim under [request.query]; secret:/env: refs stay as-is):\n"@
        + pairs_text(text_pairs(i.query@)) + "\n\nOne sample response from this endpoint:\n"@
        + sample + "\n\n"@ + feedback
}

pub fn draft_prompt(input: &ConnectInput, sample: &str, feedback: &str) -> (r: String)
    ensures
        r@ == prompt_of(*input, sample@, feedback@),
{
    let body = match &input.body {
        Some(b) => cat3("Request body (use verbatim as request.body): ", b.as_str(), "\n"),
        None => String::new(),
    };
    let mut r = cat7(
        "CRM name: ",
        input.name.as_str(),
        "\nEndpoint URL (use verbatim): ",
        input.url.as_str(),
        "\nHTTP method: ",
        input.method.as_str(),
        "\n",
    );
    r.append(body.as_str());
    r.append("Headers (use verbatim under [request.headers]):\n");
    r.append(show_pairs(&input.headers).as_str());
    r.append(
        "\nQuery params (use verbatim under [request.query]; secret:/env: refs stay as-is):\n",
    );
    r.append(show_pairs(&input.query).as_str());
    r.append("\n\nOne sample response from this endpoint:\n");
    r.append(sample);
    r.append("\n\n");
    r.append(feedback);
    r
}

/// What a description fails with, where it does.
pub open spec fn spec_error(toml: Seq<char>) -> Option<Seq<char>> {
    match toml_parsed(toml) {
        Err(m) => Some("config: "@ + ("crm.toml: "@ + m)),
        Ok(j) => match spec_read(j) {
            Ok(_) => None,
            Err(k) => Some("config: "@ + bad_key_text(k)),
        },
    }
}

/// Judges a draft of a model: the TOML in it, where it reads, or what to tell the model.
pub fn judge_draft(text: &str) -> (r: Result<String, String>)
    ensures
        match spec_error(toml_in(text@)) {
            None => r matches Ok(t) && t@ == toml_in(text@),
            Some(m) => r matches Err(f) && f@ == "Your previous draft was rejected: "@ + m
                + ". Fix it."@,
        },
{
    let toml = extract_toml(text);
    match parse(toml.as_str()) {
        Ok(_) => Ok(toml),
        Err(e) => Err(
            cat3("Your previous draft was rejected: ", e.message().as_str(), ". Fix it."),
        ),
    }
}

/// The error when no draft reads.
pub fn no_draft() -> (r: Error)
    ensures
        r matches Error::Llm(m) && m@
            == "could not draft a parseable crm.toml in 2 attempts - write it by hand (moneyball crm init) or try a richer sample"@,
{
    Error::Llm(
        "could not draft a parseable crm.toml in 2 attempts - write it by hand (moneyball crm init) or try a richer sample".to_owned(),
    )
}

/// How many drafts a model may make.
pub const DRAFT_ATTEMPTS: u32 = 2;

/// What follows a draft of a model.
#[derive(Debug)]
pub enum DraftStep {
    /// The description reads.
    Done(String),
    /// The model is asked again.
    Again(String),
    Failed(Error),
}

/// Judges the draft of the `attempt`-th attempt, and says what follows.
pub fn draft_step(input: &ConnectInput, sample: &str, attempt: u32, text: &str) -> (r: DraftStep)
    ensures
        match spec_error(toml_in(text@)) {
            None => r matches DraftStep::Done(t) && t@ == toml_in(text@),
            Some(m) => if attempt < DRAFT_ATTEMPTS {
                r matches DraftStep::Again(p) && p@ == prompt_of(
                    *input,
                    sample@,
                    "Your previous draft was rejected: "@ + m + ". Fix it."@,
                )
            } else {
                r matches DraftStep::Failed(Error::Llm(e)) && e@
                    == "could not draft a parseable crm.toml in 2 attempts - write it by hand (moneyball crm init) or try a richer sample"@
            },
        },
{
    match judge_draft(text) {
        Ok(t) => DraftStep::Done(t),
        Err(f) => if attempt < DRAFT_ATTEMPTS {
            DraftStep::Again(draft_prompt(input, sample, f.as_str()))
        } else {
            DraftStep::Failed(no_draft())
        },
    }
}

/// How a model is told to draft a description.
pub const DRAFT_SYSTEM: &'static str = "You write moneyball crm.toml source specs. Output ONLY the toml document - no prose, no markdown fences, no explanation. The toml must follow this schema exactly (keys and sections as shown; omit what you cannot infer):\n\nname = \"<crm name>\"\n\n[request]\nurl = \"<given verbatim>\"\nmethod = \"<given verbatim>\"\nbody = '<given verbatim, if a request body was provided; {page} is a template>'\n[request.headers]\n# given verbatim (values are secret:/env: refs - keep them)\n[request.query]\n# given params verbatim (secret:/env: refs stay); date-like literal values may become the {from_date} {to_date} templates; {page} {page_size} are also templates\n\n[paging]\n# only if the sample shows paging fields; mode = \"page\" needs param (+ optionally size_param, size)\n\n[map]\nroot = \"<dot path to the record array; \\\"\\\" if the response IS the array>\"\nad_id = \"<dot path to the Meta ad id>\"\nstage = \"<dot path to the pipeline stage>\"\ndelivery = \"<dot path to lead delivery time (epoch or ISO)>\"\nfunnel = \"<dot path or \\\"\\\">\"\n[map.stage_map]\n# EVERY stage value visible in the sample -> one of: Lost, NonContactable, Contactable, Visit, Revisit, Booking\n\nRules: ad_id must point at the Meta ad id (a long numeric id), not form/campaign/internal ids. delivery must be the lead delivery timestamp, not record creation, when both exist. Map stages by funnel meaning: unreachable -> NonContactable, in-contact/qualified -> Contactable, site/store visit -> Visit, repeat visit -> Revisit, won/booked/purchased -> Booking, dead -> Lost.";

/// Which model a workspace uses.
#[derive(Debug)]
pub struct ModelChoice {
    pub model_provider: Option<String>,
    pub model: Option<String>,
    pub model_providers: Vec<(String, ModelProviderInfo)>,
}

pub open spec fn or_nothing(o: Option<Seq<char>>) -> Seq<char> {
    match o {
        Some(s) => s,
        None => Seq::empty(),
    }
}

/// The provider with an id.
pub open spec fn provider_at(
    providers: Seq<(String, ModelProviderInfo)>,
    id: Seq<char>,
) -> Option<ProviderV>
    decreases providers.len(),
{
    if providers.len() == 0 {
        None
    } else if providers[0].0@ == id {
        Some(providers[0].1@)
    } else {
        provider_at(providers.drop_first(), id)
    }
}

fn find_provider<'a>(providers: &'a Vec<(String, ModelProviderInfo)>, id: &str) -> (r: Option<
    &'a ModelProviderInfo,
>)
    ensures
        match r {
            Some(p) => provider_at(providers@, id@) == Some(p@),
            None => provider_at(providers@, id@) is None,
        },
{
    let mut i: usize = 0;
    assert(providers@.skip(0) =~= providers@);
    while i < providers.len()
        invariant
            i <= providers@.len(),
            provider_at(providers@, id@) == provider_at(providers@.skip(i as int), id@),
        decreases providers.len() - i,
    {
        assert(providers@.skip(i as int).drop_first() =~= providers@.skip(i + 1));
        if same(providers[i].0.as_str(), id) {
            return Some(&providers[i].1);
        }
        i += 1;
    }
    None
}

/// The id of the provider, the provider and the model that drafts are made with.
pub fn provider_of<'a>(choice: Option<&'a ModelChoice>) -> (r: Result<
    (String, &'a ModelProviderInfo, String),
    Error,
>)
    ensures
        match choice {
            None => r matches Err(Error::Config(m)) && m@
                == "no workspace configured - run /setup first"@,
            Some(c) => {
                let id = or_nothing(opt_view(c.model_provider));
                let model = or_nothing(opt_view(c.model));
                if id.len() == 0 || model.len() == 0 {
                    r matches Err(Error::Config(m)) && m@
                        == "no LLM configured - crm connect drafts the spec with your LLM; run /setup (step 4) first, or write crm.toml by hand (moneyball crm init)"@
                } else {
                    match provider_at(c.model_providers@, id) {
                        Some(p) => r matches Ok(t) && t.0@ == id && t.1@ == p && t.2@ == model,
                        None => r matches Err(Error::Config(m)) && m@ == "configured provider '"@
                            + id + "' is not in model_providers - re-run /setup"@,
                    }
                }
            },
        },
{
    match choice {
        None => Err(Error::Config("no workspace configured - run /setup first".to_owned())),
        Some(c) => {
            let id = match &c.model_provider {
                Some(s) => s.clone(),
                None => String::new(),
            };
            let model = match &c.model {
                Some(s) => s.clone(),
                None => String::new(),
            };
            if id.as_str().is_empty() || model.as_str().is_empty() {
                return Err(
                    Error::Config(
                        "no LLM configured - crm connect drafts the spec with your LLM; run /setup (step 4) first, or write crm.toml by hand (moneyball crm init)".to_owned(),
                    ),
                );
            }
            match find_provider(&c.model_providers, id.as_str()) {
                Some(p) => Ok((id, p, model)),
                None => Err(
                    Error::Config(
                        cat3(
                            "configured provider '",
                            id.as_str(),
                            "' is not in model_providers - re-run /setup",
                        ),
                    ),
                ),
            }
        },
    }
}


// Trying a description

/// The tickets that a description makes of a sample, or what is wrong with either.
pub open spec fn sample_tickets_of(map: MapSpecV, sample: JsonV) -> Result<Seq<JsonV>, Seq<char>> {
    match records_of(sample, map.root) {
        Ok(items) => Ok(items.map_values(|rec: JsonV| ticket_of(rec, map))),
        Err(m) => Err(m),
    }
}

/// The tickets that a description makes of a sample.
pub fn sample_tickets(map: &MapSpec, sample: &Json) -> (r: Result<Json, Error>)
    ensures
        match sample_tickets_of(map@, sample@) {
            Ok(t) => r matches Ok(j) && j@ == JsonV::List(t),
            Err(m) => r matches Err(Error::Config(e)) && e@ == m,
        },
{
    match records(sample, map.root.as_str()) {
        Ok(items) => Ok(crate::json::list(transform(items, map))),
        Err(e) => Err(e),
    }
}

/// Tries a description on a sample: how many records there are, and what the check of their
/// tickets finds. `share` is the share of tickets that join the snapshot as it is shown.
pub fn dry_run(
    spec_toml: &str,
    sample: &Json,
    stages: &Vec<String>,
    snap: Option<&Snapshot>,
    share: &str,
) -> (r: Result<(usize, CheckReport), Error>)
    ensures
        match toml_parsed(spec_toml@) {
            Err(m) => r matches Err(Error::Config(t)) && t@ == "crm.toml: "@ + m,
            Ok(j) => match spec_read(j) {
                Err(k) => r matches Err(Error::Config(t)) && t@ == bad_key_text(k),
                Ok(s) => match sample_tickets_of(s.map, sample@) {
                    Err(m) => r matches Err(Error::Config(t)) && t@ == m,
                    Ok(t) => r matches Ok(p) && p.0 == t.len() && p.1@ == check_of(
                        JsonV::List(t),
                        views(stages@),
                        snapshot_known(snap),
                        share@,
                    ),
                },
            },
        },
{
    let spec = match parse(spec_toml) {
        Ok(s) => s,
        Err(e) => {
            return Err(e);
        },
    };
    let items = match records(sample, spec.map.root.as_str()) {
        Ok(v) => v,
        Err(e) => {
            return Err(e);
        },
    };
    let n: usize = items.len();
    assert(list_view(items@).len() == items@.len());
    let tickets = crate::json::list(transform(items, &spec.map));
    Ok((n, check(&tickets, stages, snap, share)))
}

} // verus!
