//! The facts of the adsets of a snapshot, under their ids.

use crate::error::Error;
use crate::fetch::{refusal, refused};
use crate::json::{
    lemma_list_view, list_view, member, pairs_view, put, set_member, text_in, Json, JsonV,
};
use crate::sets::{sort_set, sorted_set};
use crate::strs::{push_text, views};
use vstd::prelude::*;

verus! {

/// What is asked for of each adset.
pub const ADSET_FIELDS: &'static str = "name,effective_status,learning_stage_info,optimization_goal,daily_budget,targeting{geo_locations{cities,regions,custom_locations,countries},age_min,age_max,genders}";

/// The texts under `key` in the rows; `empty` says whether those without characters count.
pub open spec fn texts_under(rows: Seq<JsonV>, key: Seq<char>, empty: bool) -> Seq<Seq<char>>
    decreases rows.len(),
{
    if rows.len() == 0 {
        Seq::empty()
    } else {
        let before = texts_under(rows.drop_last(), key, empty);
        match text_in(member(rows.last(), key)) {
            Some(s) => if empty || s.len() > 0 {
                before.push(s)
            } else {
                before
            },
            None => before,
        }
    }
}

pub(crate) fn take_texts(rows: &Vec<Json>, key: &str, empty: bool) -> (r: Vec<String>)
    ensures
        views(r@) == texts_under(list_view(rows@), key@, empty),
{
    let ghost all = list_view(rows@);
    let mut out: Vec<String> = Vec::new();
    let mut i: usize = 0;
    assert(views(out@) =~= Seq::empty());
    assert(all.take(0) =~= Seq::empty());
    while i < rows.len()
        invariant
            i <= rows@.len(),
            all == list_view(rows@),
            views(out@) == texts_under(all.take(i as int), key@, empty),
        decreases rows.len() - i,
    {
        assert(all.take(i + 1).drop_last() =~= all.take(i as int));
        assert(all[i as int] == rows@[i as int]@);
        match rows[i].get(key) {
            Some(v) => match v.as_str() {
                Some(s) => {
                    if empty || !s.is_empty() {
                        push_text(&mut out, s.to_owned());
                    }
                },
                None => {},
            },
            None => {},
        }
        i += 1;
    }
    assert(all.take(i as int) =~= all);
    out
}

/// The ids of the adsets of the rows, in order and each once.
pub fn adset_ids(rows: &Vec<Json>) -> (r: Vec<String>)
    ensures
        views(r@) == sorted_set(texts_under(list_view(rows@), "adset_id"@, false)),
{
    sort_set(&take_texts(rows, "adset_id", false))
}

/// The members of `add`, put one by one into `had`.
pub open spec fn merged(had: JsonV, add: Seq<(Seq<char>, JsonV)>) -> JsonV
    decreases add.len(),
{
    if add.len() == 0 {
        had
    } else {
        set_member(merged(had, add.drop_last()), add.last().0, add.last().1)
    }
}

pub open spec fn reply_members(body: JsonV) -> Seq<(Seq<char>, JsonV)> {
    match body {
        JsonV::Object(pairs) => pairs,
        _ => Seq::empty(),
    }
}

/// Takes in the reply to a batch: the adsets that it holds go under their ids.
pub fn take_batch(by_id: Json, success: bool, status: &str, body: &Json) -> (r: Result<Json, Error>)
    ensures
        match r {
            Ok(j) => success && j@ == merged(by_id@, reply_members(body@)),
            Err(e) => !success && (e matches Error::Meta(m) && m@ == refusal(
                status@,
                "adsets"@,
                body@,
            )),
        },
{
    if !success {
        return Err(refused(status, "adsets", body));
    }
    proof {
        lemma_list_view(*body);
    }
    let ghost had = by_id@;
    match body {
        Json::Object(pairs) => {
            let ghost add = pairs_view(pairs@);
            let mut out = by_id;
            let mut i: usize = 0;
            assert(add.take(0) =~= Seq::empty());
            while i < pairs.len()
                invariant
                    i <= pairs@.len(),
                    add == pairs_view(pairs@),
                    out@ == merged(had, add.take(i as int)),
                decreases pairs.len() - i,
            {
                assert(add.take(i + 1).drop_last() =~= add.take(i as int));
                assert(add[i as int] == (pairs@[i as int].0@, pairs@[i as int].1@));
                out = put(out, pairs[i].0.as_str(), pairs[i].1.copy());
                i += 1;
            }
            assert(add.take(i as int) =~= add);
            Ok(out)
        },
        _ => Ok(by_id),
    }
}

} // verus!
