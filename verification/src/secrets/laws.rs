//! What a file of keys says.

use crate::crm::source::key_map;
use crate::json::{json_parsed, member, JsonV};
use crate::secrets::{auth_of, auth_read, empty_auth};
use vstd::prelude::*;

verus! {

/// A file of keys holds the token and the two tables of keys under their names; a token that is
/// missing or null is none.
pub proof fn law_keys_stand_under_their_names(j: JsonV)
    requires
        j is Object,
    ensures
        auth_read(j) matches Some(f) ==> f.meta_access_token == (match member(
            j,
            "meta_access_token"@,
        ) {
            Some(JsonV::Text(t)) => Some(t),
            _ => None,
        }) && Some(f.llm_keys) == key_map(member(j, "llm_keys"@)) && Some(f.crm_keys) == key_map(
            member(j, "crm_keys"@),
        ),
        member(j, "meta_access_token"@) matches Some(JsonV::Bool(_)) ==> auth_read(j) is None,
{
}

/// A file that is not there, or does not read, holds no key.
pub proof fn law_missing_file_has_no_keys(raw: Seq<char>)
    ensures
        auth_of(None) == empty_auth(),
        json_parsed(raw) is Err ==> auth_of(Some(raw)) == empty_auth(),
        json_parsed(raw) matches Ok(j) ==> (auth_read(j) matches Some(f) ==> auth_of(Some(raw))
            == f),
        empty_auth().meta_access_token is None,
        empty_auth().llm_keys.len() == 0,
        empty_auth().crm_keys.len() == 0,
{
}

} // verus!
