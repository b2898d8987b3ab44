//! The leads of the ads of a snapshot.

use crate::fetch::adsets::{take_texts, texts_under};
use crate::json::{
    list_in, list_view, member, pointer, str_or_empty, text_in, text_or_empty, Json, JsonV,
};
use crate::schema::{leads_view, LeadRow, LeadRowV};
use crate::sets::{sort_set, sorted_set};
use crate::strs::{contains, has_text, lowercase, lowercase_of, opt_view, views};
use vstd::prelude::*;

verus! {

/// What is asked for of each lead.
pub const LEAD_FIELDS: &'static str = "id,created_time,field_data";

/// The ids of the ads of the rows, in order and each once.
pub fn ad_ids(rows: &Vec<Json>) -> (r: Vec<String>)
    ensures
        views(r@) == sorted_set(texts_under(list_view(rows@), "ad_id"@, true)),
{
    sort_set(&take_texts(rows, "ad_id", true))
}

/// The value of a field of a form whose name holds `needle`, where it has one.
pub open spec fn field_value(f: JsonV, needle: Seq<char>) -> Option<Seq<char>> {
    if has_text(lowercase_of(text_or_empty(member(f, "name"@))), needle) {
        match text_in(pointer(f, "/values/0"@)) {
            Some(v) => if v.len() > 0 {
                Some(v)
            } else {
                None
            },
            None => None,
        }
    } else {
        None
    }
}

/// The first value among the fields `0..n` for `needle`.
pub open spec fn first_value(fields: Seq<JsonV>, needle: Seq<char>, from: int) -> Option<Seq<char>>
    decreases fields.len() - from,
{
    if from < 0 || from >= fields.len() {
        None
    } else {
        match field_value(fields[from], needle) {
            Some(v) => Some(v),
            None => first_value(fields, needle, from + 1),
        }
    }
}

pub open spec fn form_fields(l: JsonV) -> Seq<JsonV> {
    match list_in(member(l, "field_data"@)) {
        Some(f) => f,
        None => Seq::empty(),
    }
}

/// The value of the first of the needles that finds one.
pub open spec fn lead_value(l: JsonV, needles: Seq<Seq<char>>) -> Option<Seq<char>>
    decreases needles.len(),
{
    if needles.len() == 0 {
        None
    } else {
        match first_value(form_fields(l), needles[0], 0) {
            Some(v) => Some(v),
            None => lead_value(l, needles.drop_first()),
        }
    }
}

fn value_of(f: &Json, needle: &str) -> (r: Option<String>)
    ensures
        opt_view(r) == field_value(f@, needle@),
{
    let name = lowercase(str_or_empty(f.get("name")).as_str());
    if !contains(name.as_str(), needle) {
        return None;
    }
    match f.pointer("/values/0") {
        Some(v) => match v.as_str() {
            Some(s) => if s.is_empty() {
                None
            } else {
                Some(s.to_owned())
            },
            None => None,
        },
        None => None,
    }
}

/// The value of a form's field; the names of the fields differ from form to form.
pub fn lead_field(l: &Json, needle: &str) -> (r: Option<String>)
    ensures
        opt_view(r) == first_value(form_fields(l@), needle@, 0),
{
    match l.get("field_data") {
        None => None,
        Some(d) => match d.as_array() {
            None => None,
            Some(fields) => {
                let ghost all = list_view(fields@);
                let mut i: usize = 0;
                while i < fields.len()
                    invariant
                        i <= fields@.len(),
                        all == list_view(fields@),
                        all == form_fields(l@),
                        first_value(all, needle@, 0) == first_value(all, needle@, i as int),
                    decreases fields.len() - i,
                {
                    assert(all[i as int] == fields@[i as int]@);
                    match value_of(&fields[i], needle) {
                        Some(v) => {
                            return Some(v);
                        },
                        None => {},
                    }
                    i += 1;
                }
                None
            },
        },
    }
}

/// The row of a lead, as the platform describes it.
pub open spec fn row_of_lead(ad_id: Seq<char>, l: JsonV) -> LeadRowV {
    LeadRowV {
        lead_id: text_or_empty(member(l, "id"@)),
        ad_id,
        created_time: text_or_empty(member(l, "created_time"@)),
        name: lead_value(l, seq!["full_name"@, "full name"@, "name"@]),
        phone: lead_value(l, seq!["phone"@]),
        email: lead_value(l, seq!["email"@]),
    }
}

fn one_value(l: &Json, needle: &str) -> (r: Option<String>)
    ensures
        opt_view(r) == lead_value(l@, seq![needle@]),
{
    proof {
        reveal_with_fuel(lead_value, 2);
        assert(seq![needle@].drop_first() =~= Seq::<Seq<char>>::empty());
    }
    lead_field(l, needle)
}

fn name_value(l: &Json) -> (r: Option<String>)
    ensures
        opt_view(r) == lead_value(l@, seq!["full_name"@, "full name"@, "name"@]),
{
    proof {
        reveal_with_fuel(lead_value, 4);
        let all = seq!["full_name"@, "full name"@, "name"@];
        assert(all.drop_first() =~= seq!["full name"@, "name"@]);
        assert(seq!["full name"@, "name"@].drop_first() =~= seq!["name"@]);
    }
    match lead_field(l, "full_name") {
        Some(v) => Some(v),
        None => match lead_field(l, "full name") {
            Some(v) => Some(v),
            None => one_value(l, "name"),
        },
    }
}

pub fn row_from_lead(ad_id: &str, l: &Json) -> (r: LeadRow)
    ensures
        r@ == row_of_lead(ad_id@, l@),
{
    LeadRow {
        lead_id: str_or_empty(l.get("id")),
        ad_id: ad_id.to_owned(),
        created_time: str_or_empty(l.get("created_time")),
        name: name_value(l),
        phone: one_value(l, "phone"),
        email: one_value(l, "email"),
    }
}

pub open spec fn rows_of_leads(ad_id: Seq<char>, items: Seq<JsonV>) -> Seq<LeadRowV> {
    items.map_values(|l: JsonV| row_of_lead(ad_id, l))
}

/// Makes the rows of the leads of one ad.
pub fn rows_from_leads(ad_id: &str, items: &Vec<Json>) -> (r: Vec<LeadRow>)
    ensures
        leads_view(r@) == rows_of_leads(ad_id@, list_view(items@)),
{
    let ghost all = rows_of_leads(ad_id@, list_view(items@));
    let mut out: Vec<LeadRow> = Vec::new();
    let mut i: usize = 0;
    assert(leads_view(out@) =~= all.take(0));
    while i < items.len()
        invariant
            i <= items@.len(),
            all == rows_of_leads(ad_id@, list_view(items@)),
            leads_view(out@) == all.take(i as int),
        decreases items.len() - i,
    {
        let row = row_from_lead(ad_id, &items[i]);
        assert(list_view(items@)[i as int] == items@[i as int]@);
        assert(leads_view(out@.push(row)) =~= leads_view(out@).push(row@));
        assert(all.take(i + 1) =~= all.take(i as int).push(row@));
        out.push(row);
        i += 1;
    }
    assert(all.take(i as int) =~= all);
    out
}

} // verus!
