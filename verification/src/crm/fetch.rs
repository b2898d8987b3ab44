//! Asking a CRM: the requests, their replies and where the tickets go.

use crate::config::{below, join_path, AppConfig, DOT_DIR};
use crate::crm::check::CheckReport;
use crate::crm::source::{
    expand, expanded, resolve_ref, resolved, PagingMode, PagingSpec, PagingSpecV, RequestSpec,
    RequestSpecV, SourceSpec,
};
use crate::error::Error;
use crate::fetch::{show_day, shown_day};
use crate::json::{json_bytes_parsed, json_normal, json_printed, Json, JsonV};
use crate::provider::{lemma_text_pairs_push, lookup, text_pairs, TextMap};
use crate::strs::{cat2, cat4, dec, decimal, opt_view, same, uppercase, uppercase_of};
use crate::text::{cut_marked, truncate_marked};
use vstd::prelude::*;

pub mod laws;

verus! {

/// What came of a fetch; `path` is set where the tickets passed the check and were written.
#[derive(Debug)]
pub struct CrmFetchReport {
    pub name: String,
    pub tickets: usize,
    pub pages: u32,
    pub path: Option<String>,
    pub check: CheckReport,
}

/// Where the description of the CRM of a workspace lies.
pub fn spec_path(cfg: &AppConfig) -> (r: String)
    ensures
        r@ == below(below(cfg.data_root@, DOT_DIR@), "crm.toml"@),
{
    join_path(cfg.mb_dir().as_str(), "crm.toml")
}

/// A number of seconds with two digits.
pub open spec fn two_digits(n: nat) -> Seq<char> {
    if n < 10 {
        "0"@ + dec(n)
    } else {
        dec(n)
    }
}

/// A length of time as it is shown: milliseconds, seconds with a tenth, or minutes and seconds.
pub open spec fn elapsed_text(ms: nat) -> Seq<char> {
    let s = ms / 1000;
    if ms < 1000 {
        dec(ms) + "ms"@
    } else if s < 60 {
        dec(s) + "."@ + dec((ms % 1000) / 100) + "s"@
    } else {
        dec(s / 60) + "m"@ + two_digits(s % 60) + "s"@
    }
}

/// A length of time, given in milliseconds, as it is shown.
pub fn fmt_elapsed(ms: u64) -> (r: String)
    ensures
        r@ == elapsed_text(ms as nat),
{
    if ms < 1000 {
        return cat2(decimal(ms).as_str(), "ms");
    }
    let s: u64 = ms / 1000;
    if s < 60 {
        let tenths: u64 = (ms % 1000) / 100;
        return cat4(decimal(s).as_str(), ".", decimal(tenths).as_str(), "s");
    }
    let rest: u64 = s % 60;
    let shown = if rest < 10 {
        cat2("0", decimal(rest).as_str())
    } else {
        decimal(rest)
    };
    cat4(decimal(s / 60).as_str(), "m", shown.as_str(), "s")
}

/// A request as it goes out.
#[derive(Debug)]
pub struct HttpRequest {
    pub method: String,
    pub url: String,
    pub headers: Vec<(String, String)>,
    pub query: Vec<(String, String)>,
    pub body: Option<String>,
}

#[verifier::ext_equal]
pub struct HttpRequestV {
    pub method: Seq<char>,
    pub url: Seq<char>,
    pub headers: Seq<(Seq<char>, Seq<char>)>,
    pub query: Seq<(Seq<char>, Seq<char>)>,
    pub body: Option<Seq<char>>,
}

impl View for HttpRequest {
    type V = HttpRequestV;

    open spec fn view(&self) -> HttpRequestV {
        HttpRequestV {
            method: self.method@,
            url: self.url@,
            headers: text_pairs(self.headers@),
            query: text_pairs(self.query@),
            body: opt_view(self.body),
        }
    }
}

/// Pairs with their values resolved and filled, or the message of the first that fails.
pub open spec fn filled_pairs(
    pairs: Seq<(Seq<char>, Seq<char>)>,
    vars: Seq<(Seq<char>, Seq<char>)>,
    secrets: Seq<(Seq<char>, Seq<char>)>,
    env: Seq<(Seq<char>, Seq<char>)>,
) -> Result<Seq<(Seq<char>, Seq<char>)>, Seq<char>>
    decreases pairs.len(),
{
    if pairs.len() == 0 {
        Ok(Seq::empty())
    } else {
        match filled_pairs(pairs.drop_last(), vars, secrets, env) {
            Err(m) => Err(m),
            Ok(before) => match resolved(pairs.last().1, secrets, env) {
                Err(m) => Err(m),
                Ok(v) => Ok(before.push((pairs.last().0, expanded(v, vars)))),
            },
        }
    }
}

/// What paging adds to the query: the number of the page, and its size where that has a name.
pub open spec fn paging_pairs(
    paging: PagingSpecV,
    vars: Seq<(Seq<char>, Seq<char>)>,
) -> Seq<(Seq<char>, Seq<char>)> {
    if paging.mode == PagingMode::Page {
        let number = match lookup(vars, "page"@) {
            Some(p) => p,
            None => Seq::empty(),
        };
        if paging.size_param.len() > 0 {
            seq![(paging.param, number), (paging.size_param, dec(paging.size as nat))]
        } else {
            seq![(paging.param, number)]
        }
    } else {
        Seq::empty()
    }
}

/// The headers that a body needs.
pub open spec fn body_headers(body: Option<Seq<char>>) -> Seq<(Seq<char>, Seq<char>)> {
    if body is Some {
        seq![("Content-Type"@, "application/json"@)]
    } else {
        Seq::empty()
    }
}

/// The request of a page, from its headers and its query as they were resolved.
pub open spec fn request_of(
    req: RequestSpecV,
    paging: PagingSpecV,
    vars: Seq<(Seq<char>, Seq<char>)>,
    headers: Seq<(Seq<char>, Seq<char>)>,
    query: Seq<(Seq<char>, Seq<char>)>,
) -> HttpRequestV {
    HttpRequestV {
        method: uppercase_of(req.method),
        url: expanded(req.url, vars),
        headers: headers + body_headers(req.body),
        query: query + paging_pairs(paging, vars),
        body: match req.body {
            Some(b) => Some(expanded(b, vars)),
            None => None,
        },
    }
}

proof fn lemma_filled_prefix(
    pairs: Seq<(Seq<char>, Seq<char>)>,
    vars: Seq<(Seq<char>, Seq<char>)>,
    secrets: Seq<(Seq<char>, Seq<char>)>,
    env: Seq<(Seq<char>, Seq<char>)>,
    n: int,
)
    requires
        0 <= n <= pairs.len(),
        filled_pairs(pairs.take(n), vars, secrets, env) is Err,
    ensures
        filled_pairs(pairs, vars, secrets, env) == filled_pairs(
            pairs.take(n),
            vars,
            secrets,
            env,
        ),
    decreases pairs.len() - n,
{
    if n < pairs.len() {
        assert(pairs.take(n + 1).drop_last() =~= pairs.take(n));
        lemma_filled_prefix(pairs, vars, secrets, env, n + 1);
    } else {
        assert(pairs.take(n) =~= pairs);
    }
}

fn fill_pairs(pairs: &TextMap, vars: &TextMap, secrets: &TextMap, env: &TextMap) -> (r: Result<
    Vec<(String, String)>,
    Error,
>)
    ensures
        match filled_pairs(pairs@, vars@, secrets@, env@) {
            Ok(p) => r matches Ok(v) && text_pairs(v@) == p,
            Err(m) => r matches Err(Error::Secrets(t)) && t@ == m,
        },
{
    let ghost all = pairs@;
    let mut out: Vec<(String, String)> = Vec::new();
    let mut i: usize = 0;
    assert(text_pairs(out@) =~= Seq::empty());
    assert(all.take(0) =~= Seq::empty());
    while i < pairs.pairs.len()
        invariant
            i <= pairs.pairs@.len(),
            all == text_pairs(pairs.pairs@),
            filled_pairs(all.take(i as int), vars@, secrets@, env@) == Ok::<
                Seq<(Seq<char>, Seq<char>)>,
                Seq<char>,
            >(text_pairs(out@)),
        decreases pairs.pairs.len() - i,
    {
        assert(all.take(i + 1).drop_last() =~= all.take(i as int));
        assert(all[i as int] == (pairs.pairs@[i as int].0@, pairs.pairs@[i as int].1@));
        match resolve_ref(pairs.pairs[i].1.as_str(), secrets, env) {
            Err(e) => {
                proof {
                    lemma_filled_prefix(all, vars@, secrets@, env@, i + 1);
                }
                return Err(e);
            },
            Ok(v) => {
                let p = (pairs.pairs[i].0.clone(), expand(v.as_str(), vars));
                proof {
                    lemma_text_pairs_push(out@, p);
                }
                out.push(p);
            },
        }
        i += 1;
    }
    assert(all.take(i as int) =~= all);
    Ok(out)
}

/// Makes the request of a page. Only GET and POST are known.
pub fn build_request(
    request: &RequestSpec,
    paging: &PagingSpec,
    vars: &TextMap,
    secrets: &TextMap,
    env: &TextMap,
) -> (r: Result<HttpRequest, Error>)
    ensures
        ({
            let method = uppercase_of(request@.method);
            let headers = filled_pairs(request@.headers, vars@, secrets@, env@);
            let query = filled_pairs(request@.query, vars@, secrets@, env@);
            if !(method == "GET"@ || method == "POST"@) {
                r matches Err(Error::Config(t)) && t@ == "unsupported method "@ + method
            } else if headers is Err {
                r matches Err(Error::Secrets(t)) && t@ == headers->Err_0
            } else if query is Err {
                r matches Err(Error::Secrets(t)) && t@ == query->Err_0
            } else {
                r matches Ok(h) && h@ == request_of(
                    request@,
                    paging@,
                    vars@,
                    headers->Ok_0,
                    query->Ok_0,
                )
            }
        }),
{
    let url = expand(request.url.as_str(), vars);
    let method = uppercase(request.method.as_str());
    if !(same(method.as_str(), "GET") || same(method.as_str(), "POST")) {
        return Err(Error::Config(cat2("unsupported method ", method.as_str())));
    }
    let mut headers = match fill_pairs(&request.headers, vars, secrets, env) {
        Ok(h) => h,
        Err(e) => {
            return Err(e);
        },
    };
    let mut query = match fill_pairs(&request.query, vars, secrets, env) {
        Ok(q) => q,
        Err(e) => {
            return Err(e);
        },
    };
    let ghost own_query = text_pairs(query@);
    if paging.mode == PagingMode::Page {
        let number = match vars.get("page") {
            Some(p) => p.clone(),
            None => String::new(),
        };
        let p = (paging.param.clone(), number);
        proof {
            lemma_text_pairs_push(query@, p);
        }
        query.push(p);
        if !paging.size_param.as_str().is_empty() {
            let p = (paging.size_param.clone(), decimal(paging.size as u64));
            proof {
                lemma_text_pairs_push(query@, p);
            }
            query.push(p);
        }
    }
    assert(text_pairs(query@) =~= own_query + paging_pairs(paging@, vars@));
    let ghost own_headers = text_pairs(headers@);
    let body = match &request.body {
        Some(b) => {
            let p = ("Content-Type".to_owned(), "application/json".to_owned());
            proof {
                lemma_text_pairs_push(headers@, p);
            }
            headers.push(p);
            Some(expand(b.as_str(), vars))
        },
        None => None,
    };
    assert(text_pairs(headers@) =~= own_headers + body_headers(request@.body));
    Ok(HttpRequest { method, url, headers, query, body })
}

/// The start of a document that an error shows.
pub open spec fn preview_of(j: JsonV) -> Seq<char> {
    cut_marked(json_printed(json_normal(j)), 200, "..."@)
}

pub fn preview(v: &Json) -> (r: String)
    ensures
        r@ == preview_of(v@),
{
    truncate_marked(v.to_text().as_str(), 200, "...")
}

/// The document of a reply that read; a status that is no success is an error. `shown` is the
/// status as it is shown.
pub fn accept_reply(body: Json, code: u16, shown: &str) -> (r: Result<Json, Error>)
    ensures
        if 200 <= code < 300 {
            r matches Ok(j) && j == body
        } else {
            r matches Err(Error::Config(t)) && t@ == "CRM returned "@ + shown@ + ": "@ + preview_of(
                body@,
            )
        },
{
    if 200 <= code && code < 300 {
        Ok(body)
    } else {
        Err(Error::Config(cat4("CRM returned ", shown, ": ", preview(&body).as_str())))
    }
}

/// Reads the reply to a request.
pub fn read_reply(bytes: &Vec<u8>, code: u16, shown: &str) -> (r: Result<Json, Error>)
    ensures
        match json_bytes_parsed(bytes@) {
            Err(m) => r matches Err(Error::Config(t)) && t@ == "CRM response is not JSON: "@ + m,
            Ok(j) => if 200 <= code < 300 {
                r matches Ok(d) && d@ == j
            } else {
                r matches Err(Error::Config(t)) && t@ == "CRM returned "@ + shown@ + ": "@
                    + preview_of(j)
            },
        },
{
    match Json::parse_bytes(bytes) {
        Err(m) => Err(Error::Config(cat2("CRM response is not JSON: ", m.as_str()))),
        Ok(j) => accept_reply(j, code, shown),
    }
}

/// The newest of the dates, which are in order, that has ads.
pub open spec fn newest_with_ads(dates: Seq<(Seq<char>, bool)>) -> Option<Seq<char>>
    decreases dates.len(),
{
    if dates.len() == 0 {
        None
    } else if dates.last().1 {
        Some(dates.last().0)
    } else {
        newest_with_ads(dates.drop_last())
    }
}

pub open spec fn flagged_view(v: Seq<(String, bool)>) -> Seq<(Seq<char>, bool)> {
    v.map_values(|p: (String, bool)| (p.0@, p.1))
}

pub(crate) fn newest_flagged(dates: &Vec<(String, bool)>) -> (r: Option<String>)
    ensures
        opt_view(r) == newest_with_ads(flagged_view(dates@)),
{
    let ghost all = flagged_view(dates@);
    let mut n: usize = dates.len();
    assert(all.take(n as int) =~= all);
    while n > 0
        invariant
            n <= dates@.len(),
            all == flagged_view(dates@),
            newest_with_ads(all) == newest_with_ads(all.take(n as int)),
        decreases n,
    {
        assert(all.take(n as int).drop_last() =~= all.take(n - 1));
        assert(all[n - 1] == (dates@[n - 1].0@, dates@[n - 1].1));
        if dates[n - 1].1 {
            return Some(dates[n - 1].0.clone());
        }
        n -= 1;
    }
    assert(all.take(0) =~= Seq::empty());
    None
}

/// The date of the snapshot that the tickets go to: today's, where it has ads, else the newest that
/// has. `dates` are all dates in order, each with whether it has ads.
pub fn target_date(today: &str, today_has_ads: bool, dates: &Vec<(String, bool)>) -> (r: Result<
    String,
    Error,
>)
    ensures
        if today_has_ads {
            r matches Ok(d) && d@ == today@
        } else {
            match newest_with_ads(flagged_view(dates@)) {
                Some(n) => r matches Ok(d) && d@ == n,
                None => r matches Err(Error::Config(t)) && t@
                    == "no ads snapshot to attach CRM data to - run `moneyball fetch` (or /fetch) first"@,
            }
        },
{
    if today_has_ads {
        return Ok(today.to_owned());
    }
    match newest_flagged(dates) {
        Some(d) => Ok(d),
        None => Err(
            Error::Config(
                "no ads snapshot to attach CRM data to - run `moneyball fetch` (or /fetch) first".to_owned(),
            ),
        ),
    }
}

/// Where the tickets of a fetch go: nowhere, unless they pass the check.
pub fn write_date(
    passed: bool,
    today: &str,
    today_has_ads: bool,
    dates: &Vec<(String, bool)>,
) -> (r: Result<Option<String>, Error>)
    ensures
        if !passed {
            r matches Ok(o) && o is None
        } else if today_has_ads {
            r matches Ok(Some(d)) && d@ == today@
        } else {
            match newest_with_ads(flagged_view(dates@)) {
                Some(n) => r matches Ok(Some(d)) && d@ == n,
                None => r matches Err(Error::Config(t)) && t@
                    == "no ads snapshot to attach CRM data to - run `moneyball fetch` (or /fetch) first"@,
            }
        },
{
    if !passed {
        return Ok(None);
    }
    match target_date(today, today_has_ads, dates) {
        Ok(d) => Ok(Some(d)),
        Err(e) => Err(e),
    }
}

// What requests are filled with

/// How many days a probe looks back.
pub const PROBE_DAYS: u32 = 28;

/// How many records a probe asks for.
pub const PROBE_SIZE: u32 = 50;

/// What the templates of a request stand for: the days, the page and its size. There is nothing
/// where the days lie outside the calendar.
pub open spec fn vars_of(today: int, days: nat, page: nat, size: nat) -> Option<
    Seq<(Seq<char>, Seq<char>)>,
> {
    match (
        shown_day(
            today - (if days == 0 {
                1
            } else {
                days as int
            }),
        ),
        shown_day(today),
    ) {
        (Some(from), Some(to)) => Some(
            seq![
                ("from_date"@, from),
                ("to_date"@, to),
                ("page_size"@, dec(size)),
                ("page"@, dec(page)),
            ],
        ),
        _ => None,
    }
}

pub fn request_vars(today: i32, days: u32, page: u32, size: u32) -> (r: Option<TextMap>)
    ensures
        match vars_of(today as int, days as nat, page as nat, size as nat) {
            Some(v) => r matches Some(m) && m@ == v && m.wf(),
            None => r is None,
        },
{
    let back: i64 = if days == 0 {
        1
    } else {
        days as i64
    };
    match (show_day(today as i64 - back), show_day(today as i64)) {
        (Some(from), Some(to)) => {
            let pairs = vec![
                ("from_date".to_owned(), from),
                ("to_date".to_owned(), to),
                ("page_size".to_owned(), decimal(size as u64)),
                ("page".to_owned(), decimal(page as u64)),
            ];
            let m = TextMap { pairs };
            assert(m@ =~= vars_of(today as int, days as nat, page as nat, size as nat)->0);
            proof {
                reveal_strlit("from_date");
                reveal_strlit("to_date");
                reveal_strlit("page_size");
                reveal_strlit("page");
                assert("from_date"@[0] == 'f' && "page_size"@[0] == 'p');
                assert("from_date"@.len() == 9 && "to_date"@.len() == 7 && "page_size"@.len() == 9
                    && "page"@.len() == 4);
            }
            Some(m)
        },
        _ => None,
    }
}

/// The request of a description, which one for files alone does not have.
pub fn request_in(spec: &SourceSpec) -> (r: Result<&RequestSpec, Error>)
    ensures
        match spec.request {
            Some(q) => r matches Ok(x) && *x == q,
            None => r matches Err(Error::Config(t)) && t@
                == "crm.toml has no [request] - a CSV-only spec; use: moneyball crm import <file.csv>"@,
        },
{
    match &spec.request {
        Some(q) => Ok(q),
        None => Err(
            Error::Config(
                "crm.toml has no [request] - a CSV-only spec; use: moneyball crm import <file.csv>".to_owned(),
            ),
        ),
    }
}

} // verus!
