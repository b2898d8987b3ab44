//! What the platform says of accounts and of errors.

use crate::json::{json_normal, json_printed, member, JsonV};
use crate::meta::{
    account_fault, account_of, accounts_fault, accounts_of, code_text, error_text, platform_error,
    reply_accounts, reply_fault,
};
use vstd::prelude::*;

verus! {

/// An error of the platform has its message under the error, and its code where one is given; what
/// has not that shape is no such error.
pub proof fn law_error_has_its_message(j: JsonV, e: JsonV)
    requires
        j is Object,
        e is Object,
        member(j, "error"@) == Some(e),
    ensures
        platform_error(j) matches Some(p) ==> member(e, "message"@) == Some(JsonV::Text(p.0)) && (
        member(e, "code"@) is None ==> p.1 is None) && (member(e, "code"@) matches Some(
            JsonV::Number(n),
        ) ==> (p.1 matches Some(c) && n.unsigned == Some(c as u64))),
        member(e, "message"@) is None ==> platform_error(j) is None,
{
}

/// A reply that is an error is told by its status, its message and its code, and any other by what
/// it holds.
pub proof fn law_error_is_told(j: JsonV, status: Seq<char>)
    ensures
        platform_error(j) matches Some(p) ==> error_text(j, status) == "Meta "@ + status + ": "@ + p.0
            + " (code "@ + code_text(p.1) + ")"@,
        platform_error(j) is None ==> error_text(j, status) == "Meta "@ + status + ": "@ + json_printed(
            json_normal(j),
        ),
        j is Object && member(j, "error"@) is None ==> platform_error(j) is None,
{
}

/// The accounts of a reply are those of its data.
pub proof fn law_reply_lists_its_accounts(j: JsonV, items: Seq<JsonV>)
    requires
        j is Object,
    ensures
        member(j, "data"@) == Some(JsonV::List(items)) ==> reply_accounts(j) == accounts_of(items),
        member(j, "data"@) is None ==> reply_accounts(j) is None && reply_fault(j)
            == "missing field `data`"@,
{
}

/// What is said against a list of accounts is said against the first that is none.
pub proof fn law_first_bad_account_is_told(items: Seq<JsonV>, k: int)
    requires
        0 <= k < items.len(),
        forall|i: int| 0 <= i < k ==> account_of(#[trigger] items[i]) is Some,
        account_of(items[k]) is None,
    ensures
        accounts_fault(items) == account_fault(items[k]),
    decreases items.len(),
{
    if k > 0 {
        let rest = items.drop_first();
        assert(account_of(items[0]) is Some);
        assert forall|i: int| 0 <= i < k - 1 implies account_of(#[trigger] rest[i]) is Some by {
            assert(rest[i] == items[i + 1]);
        }
        law_first_bad_account_is_told(rest, k - 1);
    }
}

} // verus!
