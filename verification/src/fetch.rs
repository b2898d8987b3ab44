//! What is asked of the ad platform for a snapshot, and what its replies become.

pub mod laws;
pub mod adsets;
pub mod assets;
pub mod creatives;
pub mod leads;

use crate::dates::{day_text, day_text_of};
use crate::error::Error;
use crate::json::{
    distinct_keys, find_key, json_normal, json_parsed, json_plain, json_pretty,
    law_normal_keeps_members, lemma_list_push, list, list_in, list_view, member, pointer, put,
    set_member, text, text_in, with_key, Json, JsonV, MAX_DEPTH,
};
use crate::snapshot::{ads_of_json, ads_row_read, ads_row_reads, AdsDailyRowV};
use crate::strs::{cat2, cat5, cat6, occurs_at, opt_view, starts_with};
use vstd::prelude::*;

verus! {

pub const META_GRAPH_BASE: &'static str = "https://graph.facebook.com";

/// What is asked for of each ad and day.
pub const INSIGHT_FIELDS: &'static str = "campaign_id,campaign_name,adset_id,adset_name,ad_id,ad_name,spend,impressions,reach,frequency,clicks,inline_link_clicks,inline_link_click_ctr,cost_per_inline_link_click,cpc,ctr,cpm,actions";

/// What a fetch wrote.
#[derive(Debug)]
pub struct FetchReport {
    pub date: String,
    pub path: String,
    /// For each product its name and how many rows it got.
    pub per_product: Vec<(String, usize)>,
}

/// The days of a fetch: the one it is made on, and the first and the last one it covers.
#[derive(Debug)]
pub struct FetchWindow {
    pub date: String,
    pub since: String,
    pub until: String,
}

/// The first day of a fetch of `days` days that is made on `today`: it ends the day before, and
/// covers one day at least.
pub open spec fn first_day(today: int, days: nat) -> int {
    today - 1 - (if days == 0 {
        0
    } else {
        days - 1
    })
}

pub open spec fn shown_day(day: int) -> Option<Seq<char>> {
    if i32::MIN <= day <= i32::MAX {
        day_text_of(day as i32)
    } else {
        None
    }
}

pub(crate) fn show_day(day: i64) -> (r: Option<String>)
    ensures
        opt_view(r) == shown_day(day as int),
{
    if day < i32::MIN as i64 || day > i32::MAX as i64 {
        None
    } else {
        day_text(day as i32)
    }
}

/// The days that a fetch of `days` days covers; there are none where they lie outside the calendar.
pub fn window(today: i32, days: u32) -> (r: Option<FetchWindow>)
    ensures
        ({
            let date = shown_day(today as int);
            let since = shown_day(first_day(today as int, days as nat));
            let until = shown_day(today - 1);
            match r {
                Some(w) => date == Some(w.date@) && since == Some(w.since@) && until == Some(
                    w.until@,
                ),
                None => date is None || since is None || until is None,
            }
        }),
{
    let last: i64 = today as i64 - 1;
    let back: i64 = if days == 0 {
        0
    } else {
        days as i64 - 1
    };
    match (show_day(today as i64), show_day(last - back), show_day(last)) {
        (Some(date), Some(since), Some(until)) => Some(FetchWindow { date, since, until }),
        _ => None,
    }
}

/// The id of an account as the platform knows it.
pub open spec fn act_of(account: Seq<char>) -> Seq<char> {
    if occurs_at(account, "act_"@, 0) {
        account
    } else {
        "act_"@ + account
    }
}

pub fn act_id(account: &str) -> (r: String)
    ensures
        r@ == act_of(account@),
{
    if starts_with(account, "act_") {
        account.to_owned()
    } else {
        cat2("act_", account)
    }
}

/// The days of a request as the platform takes them.
pub fn time_range(since: &str, until: &str) -> (r: String)
    ensures
        r@ == "{\"since\":\""@ + since@ + "\",\"until\":\""@ + until@ + "\"}"@,
{
    cat5("{\"since\":\"", since, "\",\"until\":\"", until, "\"}")
}

// Pages

/// What the platform says went wrong.
pub open spec fn platform_message(body: JsonV) -> Seq<char> {
    match text_in(pointer(body, "/error/message"@)) {
        Some(m) => m,
        None => "unknown error"@,
    }
}

/// The message on a reply that is no success; `what` is what was asked for.
pub open spec fn refusal(status: Seq<char>, what: Seq<char>, body: JsonV) -> Seq<char> {
    "Meta "@ + status + " for "@ + what + ": "@ + platform_message(body)
}

pub(crate) fn refused(status: &str, what: &str, body: &Json) -> (r: Error)
    ensures
        r matches Error::Meta(m) && m@ == refusal(status@, what@, body@),
{
    let m = match body.pointer("/error/message") {
        Some(v) => match v.as_str() {
            Some(s) => s.to_owned(),
            None => "unknown error".to_owned(),
        },
        None => "unknown error".to_owned(),
    };
    Error::Meta(cat6("Meta ", status, " for ", what, ": ", m.as_str()))
}

/// The rows of a page.
pub open spec fn page_rows(body: JsonV) -> Seq<JsonV> {
    match list_in(member(body, "data"@)) {
        Some(rows) => rows,
        None => Seq::empty(),
    }
}

/// Where the next page is, if there is one.
pub open spec fn page_next(body: JsonV) -> Option<Seq<char>> {
    text_in(pointer(body, "/paging/next"@))
}

/// The rows of pages that follow each other: where the next request goes, and what came so far.
#[derive(Debug)]
pub struct Pull {
    /// What is asked for, as messages name it.
    pub what: String,
    pub url: String,
    /// Whether the parameters of the request go with it: the address of a next page has them.
    pub first: bool,
    pub rows: Vec<Json>,
}

#[verifier::ext_equal]
pub struct PullV {
    pub what: Seq<char>,
    pub url: Seq<char>,
    pub first: bool,
    pub rows: Seq<JsonV>,
}

impl View for Pull {
    type V = PullV;

    open spec fn view(&self) -> PullV {
        PullV {
            what: self.what@,
            url: self.url@,
            first: self.first,
            rows: list_view(self.rows@),
        }
    }
}

/// What becomes of a pull with a page.
pub open spec fn pulled(p: PullV, body: JsonV) -> PullV {
    PullV {
        what: p.what,
        url: match page_next(body) {
            Some(next) => next,
            None => p.url,
        },
        first: p.first && page_next(body) is None,
        rows: p.rows + page_rows(body),
    }
}

impl Pull {
    pub fn new(what: &str, url: &str) -> (r: Pull)
        ensures
            r@ == (PullV { what: what@, url: url@, first: true, rows: Seq::empty() }),
    {
        let r = Pull {
            what: what.to_owned(),
            url: url.to_owned(),
            first: true,
            rows: Vec::new(),
        };
        assert(r@.rows =~= Seq::empty());
        r
    }

    /// Takes in the reply to the request. It says whether there is a next page; a reply that is no
    /// success leaves the pull as it is.
    pub fn step(&mut self, success: bool, status: &str, body: &Json) -> (r: Result<bool, Error>)
        ensures
            match r {
                Ok(more) => success && more == (page_next(body@) is Some) && final(self)@ == pulled(
                    old(self)@,
                    body@,
                ),
                Err(e) => !success && final(self)@ == old(self)@ && (e matches Error::Meta(m) && m@
                    == refusal(status@, old(self).what@, body@)),
            },
    {
        if !success {
            return Err(refused(status, self.what.as_str(), body));
        }
        let ghost start = list_view(self.rows@);
        match body.get("data") {
            Some(d) => match d.as_array() {
                Some(rows) => {
                    let ghost new = list_view(rows@);
                    let mut i: usize = 0;
                    assert(start + new.take(0) =~= start);
                    while i < rows.len()
                        invariant
                            i <= rows@.len(),
                            new == list_view(rows@),
                            list_view(self.rows@) == start + new.take(i as int),
                            self.what == old(self).what,
                            self.url == old(self).url,
                            self.first == old(self).first,
                        decreases rows.len() - i,
                    {
                        let row = rows[i].copy();
                        proof {
                            assert(new[i as int] == rows@[i as int]@);
                            lemma_list_push(self.rows@, row);
                            assert(start + new.take(i + 1) =~= (start + new.take(i as int)).push(
                                row@,
                            ));
                        }
                        self.rows.push(row);
                        i += 1;
                    }
                    assert(new.take(i as int) =~= new);
                },
                None => {
                    assert(start + page_rows(body@) =~= start);
                },
            },
            None => {
                assert(start + page_rows(body@) =~= start);
            },
        }
        match body.pointer("/paging/next") {
            Some(n) => match n.as_str() {
                Some(next) => {
                    self.url = next.to_owned();
                    self.first = false;
                    Ok(true)
                },
                None => Ok(false),
            },
            None => Ok(false),
        }
    }
}

// Rows

/// The rows, each that is an object with its product.
pub open spec fn tagged(rows: Seq<JsonV>, product: Seq<char>) -> Seq<JsonV> {
    rows.map_values(|r: JsonV| set_member(r, "_product"@, JsonV::Text(product)))
}

/// Puts the product into each row.
pub fn tag_rows(rows: &Vec<Json>, product: &str) -> (r: Vec<Json>)
    ensures
        list_view(r@) == tagged(list_view(rows@), product@),
{
    let ghost all = tagged(list_view(rows@), product@);
    let mut out: Vec<Json> = Vec::new();
    let mut i: usize = 0;
    assert(list_view(out@) =~= all.take(0));
    while i < rows.len()
        invariant
            i <= rows@.len(),
            all == tagged(list_view(rows@), product@),
            list_view(out@) == all.take(i as int),
        decreases rows.len() - i,
    {
        let row = put(rows[i].copy(), "_product", text(product));
        proof {
            assert(list_view(rows@)[i as int] == rows@[i as int]@);
            lemma_list_push(out@, row);
            assert(all.take(i + 1) =~= all.take(i as int).push(row@));
        }
        out.push(row);
        i += 1;
    }
    assert(all.take(i as int) =~= all);
    out
}

/// What is put under a key is found under it, and what is under the others stays.
pub proof fn law_put_member_is_found(pairs: Seq<(Seq<char>, JsonV)>, key: Seq<char>, value: JsonV, k: Seq<char>)
    ensures
        find_key(with_key(pairs, key, value), k) == (if k == key {
            Some(value)
        } else {
            find_key(pairs, k)
        }),
    decreases pairs.len(),
{
    let now = with_key(pairs, key, value);
    if pairs.len() == 0 {
        assert(now.drop_first() =~= pairs);
    } else if pairs[0].0 == key {
        assert(now.drop_first() =~= pairs.drop_first());
    } else {
        law_put_member_is_found(pairs.drop_first(), key, value, k);
        assert(now.drop_first() =~= with_key(pairs.drop_first(), key, value));
    }
}

/// The row of an ad as it comes back from a file: the members of its actions are then in order.
pub open spec fn normal_ads(r: AdsDailyRowV) -> AdsDailyRowV {
    AdsDailyRowV { actions: r.actions.map_values(|a: JsonV| json_normal(a)), ..r }
}

/// Whether a row is one that the reader of snapshots takes: an object without two members of one
/// key that reads as the row of an ad, with integers for numbers and not too deep.
pub open spec fn is_common_row(j: JsonV) -> bool {
    &&& j matches JsonV::Object(pairs) && distinct_keys(pairs)
    &&& ads_row_reads(j)
    &&& json_plain(json_normal(j), MAX_DEPTH - 1)
}

proof fn lemma_row_normal(j: JsonV)
    requires
        is_common_row(j),
    ensures
        ads_row_reads(json_normal(j)),
        ads_row_read(json_normal(j)) == normal_ads(ads_row_read(j)),
{
    let pairs = j->Object_0;
    law_normal_keeps_members(pairs, "campaign_id"@);
    law_normal_keeps_members(pairs, "campaign_name"@);
    law_normal_keeps_members(pairs, "adset_id"@);
    law_normal_keeps_members(pairs, "adset_name"@);
    law_normal_keeps_members(pairs, "ad_id"@);
    law_normal_keeps_members(pairs, "ad_name"@);
    law_normal_keeps_members(pairs, "spend"@);
    law_normal_keeps_members(pairs, "impressions"@);
    law_normal_keeps_members(pairs, "reach"@);
    law_normal_keeps_members(pairs, "frequency"@);
    law_normal_keeps_members(pairs, "clicks"@);
    law_normal_keeps_members(pairs, "inline_link_clicks"@);
    law_normal_keeps_members(pairs, "inline_link_click_ctr"@);
    law_normal_keeps_members(pairs, "cost_per_inline_link_click"@);
    law_normal_keeps_members(pairs, "cpc"@);
    law_normal_keeps_members(pairs, "ctr"@);
    law_normal_keeps_members(pairs, "cpm"@);
    law_normal_keeps_members(pairs, "actions"@);
    law_normal_keeps_members(pairs, "date_start"@);
    law_normal_keeps_members(pairs, "date_stop"@);
    law_normal_keeps_members(pairs, "_product"@);
    match find_key(pairs, "actions"@) {
        Some(a) => {
            let items = a->List_0;
            assert(json_normal(a)->List_0 =~= items.map_values(|a: JsonV| json_normal(a)));
        },
        None => {
            assert(Seq::<JsonV>::empty().map_values(|a: JsonV| json_normal(a))
                =~= Seq::<JsonV>::empty());
        },
    }
}

/// The text of the rows of a snapshot. The reader of snapshots gets the rows back from it.
pub fn snapshot_text(rows: &Vec<Json>) -> (r: String)
    ensures
        r@ == json_pretty(json_normal(JsonV::List(list_view(rows@)))),
        (forall|i: int| 0 <= i < rows@.len() ==> is_common_row(#[trigger] list_view(rows@)[i]))
            ==> (json_parsed(r@) matches Ok(j) && ads_of_json(j) == Some(
            list_view(rows@).map_values(|row: JsonV| normal_ads(ads_row_read(row))),
        )),
{
    let mut copy: Vec<Json> = Vec::new();
    let ghost all = list_view(rows@);
    let mut i: usize = 0;
    assert(list_view(copy@) =~= all.take(0));
    while i < rows.len()
        invariant
            i <= rows@.len(),
            all == list_view(rows@),
            list_view(copy@) == all.take(i as int),
        decreases rows.len() - i,
    {
        let c = rows[i].copy();
        proof {
            assert(all[i as int] == rows@[i as int]@);
            lemma_list_push(copy@, c);
            assert(all.take(i + 1) =~= all.take(i as int).push(c@));
        }
        copy.push(c);
        i += 1;
    }
    assert(all.take(i as int) =~= all);
    let t = list(copy).to_pretty();
    proof {
        if forall|i: int| 0 <= i < rows@.len() ==> is_common_row(#[trigger] list_view(rows@)[i]) {
            let now = json_normal(JsonV::List(all))->List_0;
            assert(now.len() == all.len());
            assert forall|k: int| 0 <= k < now.len() implies ads_row_reads(#[trigger] now[k])
                && ads_row_read(now[k]) == normal_ads(ads_row_read(all[k])) && json_plain(
                now[k],
                MAX_DEPTH - 1,
            ) by {
                assert(is_common_row(all[k]));
                lemma_row_normal(all[k]);
                assert(now[k] == json_normal(all[k]));
            }
            assert(json_plain(json_normal(JsonV::List(all)), MAX_DEPTH as int));
            assert(now.map_values(|j: JsonV| ads_row_read(j)) =~= all.map_values(
                |row: JsonV| normal_ads(ads_row_read(row)),
            ));
        }
    }
    t
}

} // verus!
