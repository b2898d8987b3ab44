//! The ad platform's own replies.

use crate::error::Error;
use crate::json::{
    find_in, find_key, json_normal, json_printed, lemma_list_view, list_fault, list_in, list_view,
    nat_in, opt_json, Json, JsonV,
};
use crate::records::{
    elements_fault, field, field_of, fields_view, find_elements_fault, find_members_fault,
    find_record_fault, is_record, long_fault, members_fault, opt_text_field, opt_text_reads, record,
    record_fault, said, FieldKind,
};
use crate::strs::{after_prefix, cat2, cat3, cat4, dec, decimal, strip_prefix};
use vstd::prelude::*;

pub mod laws;

verus! {

/// An ad account that a token can see.
#[derive(Debug)]
pub struct AdAccount {
    pub id: String,
    pub name: String,
    pub account_status: Option<u32>,
}

#[verifier::ext_equal]
pub struct AdAccountV {
    pub id: Seq<char>,
    pub name: Seq<char>,
    pub account_status: Option<u32>,
}

impl View for AdAccount {
    type V = AdAccountV;

    open spec fn view(&self) -> AdAccountV {
        AdAccountV { id: self.id@, name: self.name@, account_status: self.account_status }
    }
}

/// A number within `u32` that may be missing or null.
pub open spec fn opt_u32_reads(o: Option<JsonV>) -> bool {
    match o {
        None => true,
        Some(JsonV::Null) => true,
        Some(j) => nat_in(Some(j)) matches Some(n) && n <= u32::MAX,
    }
}

pub open spec fn opt_u32_read(o: Option<JsonV>) -> Option<u32> {
    match nat_in(o) {
        Some(n) => Some(n as u32),
        None => None,
    }
}

fn opt_u32(o: Option<&Json>) -> (r: Option<Option<u32>>)
    ensures
        match r {
            Some(v) => opt_u32_reads(opt_json(o)) && v == opt_u32_read(opt_json(o)),
            None => !opt_u32_reads(opt_json(o)),
        },
{
    match o {
        None => Some(None),
        Some(j) => {
            if j.is_null() {
                return Some(None);
            }
            match j.as_u64() {
                Some(n) => if n <= u32::MAX as u64 {
                    Some(Some(n as u32))
                } else {
                    None
                },
                None => None,
            }
        },
    }
}

/// The message and the code of an error that the platform sent, where it has the shape of one.
pub open spec fn platform_error(j: JsonV) -> Option<(Seq<char>, Option<u32>)> {
    if !is_record(j, 1) {
        None
    } else {
        match field(j, "error"@, 0) {
            Some(e) => if is_record(e, 3) && opt_text_reads(field(e, "type"@, 1)) && opt_u32_reads(
                field(e, "code"@, 2),
            ) {
                match field(e, "message"@, 0) {
                    Some(JsonV::Text(m)) => Some((m, opt_u32_read(field(e, "code"@, 2)))),
                    _ => None,
                }
            } else {
                None
            },
            None => None,
        }
    }
}

pub open spec fn code_text(code: Option<u32>) -> Seq<char> {
    match code {
        Some(c) => "Some("@ + dec(c as nat) + ")"@,
        None => "None"@,
    }
}

/// What the error of a reply says; `status` is its status as it is shown.
pub open spec fn error_text(body: JsonV, status: Seq<char>) -> Seq<char> {
    match platform_error(body) {
        Some((m, code)) => "Meta "@ + status + ": "@ + m + " (code "@ + code_text(code) + ")"@,
        None => "Meta "@ + status + ": "@ + json_printed(json_normal(body)),
    }
}

fn read_error(j: &Json) -> (r: Option<(String, Option<u32>)>)
    ensures
        match r {
            Some(p) => platform_error(j@) == Some((p.0@, p.1)),
            None => platform_error(j@) is None,
        },
{
    if !record(j, 1) {
        return None;
    }
    let e = match field_of(j, "error", 0) {
        Some(e) => e,
        None => {
            return None;
        },
    };
    if !record(e, 3) || opt_text_field(field_of(e, "type", 1)).is_none() {
        return None;
    }
    let code = match opt_u32(field_of(e, "code", 2)) {
        Some(c) => c,
        None => {
            return None;
        },
    };
    match field_of(e, "message", 0) {
        Some(m) => match m.as_str() {
            Some(s) => Some((s.to_owned(), code)),
            None => None,
        },
        None => None,
    }
}

pub fn parse_error(body: &Json, status: &str) -> (r: String)
    ensures
        r@ == error_text(body@, status@),
{
    match read_error(body) {
        Some((m, code)) => {
            let shown = match code {
                Some(c) => crate::strs::cat3("Some(", decimal(c as u64).as_str(), ")"),
                None => "None".to_owned(),
            };
            crate::strs::cat7(
                "Meta ",
                status,
                ": ",
                m.as_str(),
                " (code ",
                shown.as_str(),
                ")",
            )
        },
        None => cat4("Meta ", status, ": ", body.to_text().as_str()),
    }
}

/// The id of an account without the prefix that the platform gives it.
pub open spec fn stored_id(s: Seq<char>) -> Seq<char> {
    match after_prefix(s, "act_"@) {
        Some(rest) => rest,
        None => s,
    }
}

pub fn account_id_for_storage(act_id_or_id: &str) -> (r: String)
    ensures
        r@ == stored_id(act_id_or_id@),
{
    match strip_prefix(act_id_or_id, "act_") {
        Some(rest) => rest,
        None => act_id_or_id.to_owned(),
    }
}

// Accounts

/// The account that a document holds.
pub open spec fn account_of(j: JsonV) -> Option<AdAccountV> {
    match (field(j, "id"@, 0), field(j, "name"@, 1)) {
        (Some(JsonV::Text(id)), Some(JsonV::Text(name))) => if is_record(j, 3) && opt_u32_reads(
            field(j, "account_status"@, 2),
        ) {
            Some(
                AdAccountV {
                    id,
                    name,
                    account_status: opt_u32_read(field(j, "account_status"@, 2)),
                },
            )
        } else {
            None
        },
        _ => None,
    }
}

/// The accounts of a list, where every one reads.
pub open spec fn accounts_of(items: Seq<JsonV>) -> Option<Seq<AdAccountV>>
    decreases items.len(),
{
    if items.len() == 0 {
        Some(Seq::empty())
    } else {
        match (accounts_of(items.drop_last()), account_of(items.last())) {
            (Some(before), Some(a)) => Some(before.push(a)),
            _ => None,
        }
    }
}

/// The accounts that a reply holds.
pub open spec fn reply_accounts(j: JsonV) -> Option<Seq<AdAccountV>> {
    match list_in(field(j, "data"@, 0)) {
        Some(items) => if is_record(j, 1) {
            accounts_of(items)
        } else {
            None
        },
        None => None,
    }
}

pub open spec fn accounts_view(v: Seq<AdAccount>) -> Seq<AdAccountV> {
    v.map_values(|a: AdAccount| a@)
}

fn read_account(j: &Json) -> (r: Option<AdAccount>)
    ensures
        match r {
            Some(a) => account_of(j@) == Some(a@),
            None => account_of(j@) is None,
        },
{
    if !record(j, 3) {
        return None;
    }
    match (field_of(j, "id", 0), field_of(j, "name", 1), opt_u32(field_of(j, "account_status", 2))) {
        (Some(id), Some(name), Some(account_status)) => match (id.as_str(), name.as_str()) {
            (Some(i), Some(n)) => Some(
                AdAccount { id: i.to_owned(), name: n.to_owned(), account_status },
            ),
            _ => None,
        },
        _ => None,
    }
}

proof fn lemma_accounts_prefix(items: Seq<JsonV>, n: int)
    requires
        0 <= n <= items.len(),
        accounts_of(items.take(n)) is None,
    ensures
        accounts_of(items) is None,
    decreases items.len() - n,
{
    if n < items.len() {
        assert(items.take(n + 1).drop_last() =~= items.take(n));
        lemma_accounts_prefix(items, n + 1);
    } else {
        assert(items.take(n) =~= items);
    }
}

// Why a reply does not list accounts

pub open spec fn account_fields() -> Seq<(Seq<char>, FieldKind)> {
    seq![
        ("id"@, FieldKind::Text),
        ("name"@, FieldKind::Text),
        ("account_status"@, FieldKind::OptU32),
    ]
}

fn list_account_fields() -> (r: Vec<(&'static str, FieldKind)>)
    ensures
        fields_view(r@) == account_fields(),
{
    let r = vec![
        ("id", FieldKind::Text),
        ("name", FieldKind::Text),
        ("account_status", FieldKind::OptU32),
    ];
    assert(fields_view(r@) =~= account_fields());
    r
}

/// What is said against a document that is no account.
pub open spec fn account_fault(j: JsonV) -> Seq<char> {
    match j {
        JsonV::Object(pairs) => match members_fault(account_fields(), pairs) {
            Some(m) => m,
            None => if find_key(pairs, "id"@) is None {
                "missing field `id`"@
            } else {
                "missing field `name`"@
            },
        },
        JsonV::List(items) => match elements_fault(account_fields(), items, 0) {
            Some(m) => m,
            None => if items.len() == 0 {
                "invalid length 0, expected struct AdAccount with 3 elements"@
            } else if items.len() == 1 {
                "invalid length 1, expected struct AdAccount with 3 elements"@
            } else {
                long_fault(items.len())
            },
        },
        _ => record_fault(j, "struct AdAccount"@),
    }
}

/// What is said against the first of documents that is no account.
pub open spec fn accounts_fault(items: Seq<JsonV>) -> Seq<char>
    decreases items.len(),
{
    if items.len() == 0 {
        Seq::empty()
    } else if account_of(items[0]) is Some {
        accounts_fault(items.drop_first())
    } else {
        account_fault(items[0])
    }
}

/// What is said against what stands for the list of accounts.
pub open spec fn data_fault(j: JsonV) -> Seq<char> {
    match j {
        JsonV::List(items) => accounts_fault(items),
        _ => said(list_fault(json_normal(j))),
    }
}

/// What is said against a reply that does not list accounts.
pub open spec fn reply_fault(j: JsonV) -> Seq<char> {
    match j {
        JsonV::Object(pairs) => match find_key(pairs, "data"@) {
            Some(d) => data_fault(d),
            None => "missing field `data`"@,
        },
        JsonV::List(items) => if items.len() == 0 {
            "invalid length 0, expected struct ApiResponse with 1 element"@
        } else if data_reads(items[0]) {
            long_fault(items.len())
        } else {
            data_fault(items[0])
        },
        _ => record_fault(j, "struct ApiResponse"@),
    }
}

/// Whether a document is a list of accounts.
pub open spec fn data_reads(j: JsonV) -> bool {
    match j {
        JsonV::List(items) => forall|i: int|
            0 <= i < items.len() ==> account_of(#[trigger] items[i]) is Some,
        _ => false,
    }
}

fn long(n: usize) -> (r: String)
    ensures
        r@ == long_fault(n as nat),
{
    cat3("invalid length ", decimal(n as u64).as_str(), ", expected fewer elements in array")
}

fn find_account_fault(j: &Json) -> (r: String)
    ensures
        r@ == account_fault(j@),
{
    proof {
        lemma_list_view(*j);
    }
    match j {
        Json::Object(pairs) => match find_members_fault(&list_account_fields(), pairs) {
            Some(m) => m,
            None => if find_in(pairs, "id").is_none() {
                "missing field `id`".to_owned()
            } else {
                "missing field `name`".to_owned()
            },
        },
        Json::List(items) => match find_elements_fault(&list_account_fields(), items) {
            Some(m) => m,
            None => {
                assert(list_view(items@).len() == items@.len());
                if items.len() == 0 {
                    "invalid length 0, expected struct AdAccount with 3 elements".to_owned()
                } else if items.len() == 1 {
                    "invalid length 1, expected struct AdAccount with 3 elements".to_owned()
                } else {
                    long(items.len())
                }
            },
        },
        _ => find_record_fault(j, "struct AdAccount"),
    }
}

/// Says what is wrong with a list of accounts; `None` where nothing is.
fn find_data_fault(j: &Json) -> (r: Option<String>)
    ensures
        match r {
            Some(m) => !data_reads(j@) && m@ == data_fault(j@),
            None => data_reads(j@),
        },
{
    proof {
        lemma_list_view(*j);
    }
    match j {
        Json::List(items) => {
            let ghost all = list_view(items@);
            let mut i: usize = 0;
            assert(all.skip(0) =~= all);
            while i < items.len()
                invariant
                    i <= items@.len(),
                    all == list_view(items@),
                    j@ == JsonV::List(all),
                    accounts_fault(all) == accounts_fault(all.skip(i as int)),
                    forall|k: int| 0 <= k < i ==> account_of(#[trigger] all[k]) is Some,
                decreases items.len() - i,
            {
                assert(all.skip(i as int).drop_first() =~= all.skip(i + 1));
                assert(all[i as int] == items@[i as int]@);
                if read_account(&items[i]).is_none() {
                    assert(account_of(all[i as int]) is None);
                    return Some(find_account_fault(&items[i]));
                }
                i += 1;
            }
            None
        },
        _ => match j.list_fault() {
            Some(m) => Some(m),
            None => {
                let r = String::new();
                assert(r@ =~= Seq::empty());
                Some(r)
            },
        },
    }
}

fn find_reply_fault(j: &Json) -> (r: String)
    ensures
        r@ == reply_fault(j@),
{
    proof {
        lemma_list_view(*j);
    }
    match j {
        Json::Object(pairs) => match find_in(pairs, "data") {
            Some(d) => match find_data_fault(d) {
                Some(m) => m,
                None => {
                    let r = String::new();
                    proof {
                        lemma_no_data_fault(d@);
                        assert(r@ =~= Seq::empty());
                    }
                    r
                },
            },
            None => "missing field `data`".to_owned(),
        },
        Json::List(items) => {
            assert(list_view(items@).len() == items@.len());
            if items.len() == 0 {
                "invalid length 0, expected struct ApiResponse with 1 element".to_owned()
            } else {
                assert(list_view(items@)[0] == items@[0]@);
                match find_data_fault(&items[0]) {
                    Some(m) => m,
                    None => long(items.len()),
                }
            }
        },
        _ => find_record_fault(j, "struct ApiResponse"),
    }
}

proof fn lemma_no_accounts_fault(items: Seq<JsonV>)
    requires
        forall|i: int| 0 <= i < items.len() ==> account_of(#[trigger] items[i]) is Some,
    ensures
        accounts_fault(items) == Seq::<char>::empty(),
    decreases items.len(),
{
    if items.len() > 0 {
        let rest = items.drop_first();
        assert(account_of(items[0]) is Some);
        assert forall|i: int| 0 <= i < rest.len() implies account_of(
            #[trigger] rest[i],
        ) is Some by {
            assert(account_of(items[i + 1]) is Some);
        }
        lemma_no_accounts_fault(rest);
    }
}

proof fn lemma_no_data_fault(j: JsonV)
    requires
        data_reads(j),
    ensures
        data_fault(j) == Seq::<char>::empty(),
{
    lemma_no_accounts_fault(j->List_0);
}

/// Takes in the reply to the question for the accounts of a token; `status` is its status as it is
/// shown.
pub fn list_ad_accounts(success: bool, status: &str, body: &Json) -> (r: Result<
    Vec<AdAccount>,
    Error,
>)
    ensures
        if !success {
            r matches Err(Error::Meta(m)) && m@ == error_text(body@, status@)
        } else {
            match reply_accounts(body@) {
                Some(v) => r matches Ok(a) && accounts_view(a@) == v,
                None => r matches Err(Error::Meta(m)) && m@ == "decode: "@ + reply_fault(body@),
            }
        },
{
    if !success {
        return Err(Error::Meta(parse_error(body, status)));
    }
    let items = match field_of(body, "data", 0) {
        Some(l) => l.as_array(),
        None => None,
    };
    let items = match items {
        Some(v) => v,
        None => {
            return Err(Error::Meta(cat2("decode: ", find_reply_fault(body).as_str())));
        },
    };
    if !record(body, 1) {
        return Err(Error::Meta(cat2("decode: ", find_reply_fault(body).as_str())));
    }
    let ghost all = list_view(items@);
    let mut out: Vec<AdAccount> = Vec::new();
    let mut i: usize = 0;
    assert(accounts_view(out@) =~= Seq::empty());
    assert(all.take(0) =~= Seq::empty());
    while i < items.len()
        invariant
            i <= items@.len(),
            success,
            all == list_view(items@),
            reply_accounts(body@) == accounts_of(all),
            accounts_of(all.take(i as int)) == Some(accounts_view(out@)),
        decreases items.len() - i,
    {
        assert(all.take(i + 1).drop_last() =~= all.take(i as int));
        assert(all[i as int] == items@[i as int]@);
        match read_account(&items[i]) {
            Some(a) => {
                assert(accounts_view(out@.push(a)) =~= accounts_view(out@).push(a@));
                out.push(a);
            },
            None => {
                proof {
                    lemma_accounts_prefix(all, i + 1);
                }
                return Err(Error::Meta(cat2("decode: ", find_reply_fault(body).as_str())));
            },
        }
        i += 1;
    }
    assert(all.take(i as int) =~= all);
    Ok(out)
}

/// Takes in the reply to the question whom a token belongs to.
pub fn validate_token(success: bool, status: &str, body: &Json) -> (r: Result<(), Error>)
    ensures
        match r {
            Ok(_) => success,
            Err(e) => !success && (e matches Error::Meta(m) && m@ == error_text(body@, status@)),
        },
{
    if success {
        Ok(())
    } else {
        Err(Error::Meta(parse_error(body, status)))
    }
}

} // verus!
