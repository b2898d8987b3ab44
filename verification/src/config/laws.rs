//! What a configuration means.

use crate::config::{
    accounts_of, below, crm_config_of, join_keys_of, product_of, products_of, root_of, snap_named,
    workspace_of,
};
use crate::json::{member, JsonV};
use crate::provider::{law_stored_key_is_found, lookup};
use crate::sets::{law_sorted_set, sorted_set};
use crate::snapshot::laws::law_dates_have_their_shape;
use crate::snapshot::{date_names, is_date_name};
use crate::strs::text_lt;
use vstd::prelude::*;

verus! {

// Workspaces

/// A product has a name and an account.
pub proof fn law_product_has_its_account(j: JsonV, name: Seq<char>, account: Seq<char>)
    requires
        j is Object,
    ensures
        product_of(j) == Some((name, account)) <==> member(j, "name"@) == Some(JsonV::Text(name))
            && member(j, "ad_account"@) == Some(JsonV::Text(account)),
{
}

/// The products are read one by one, where every one of them reads.
pub proof fn law_products_are_read_one_by_one(items: Seq<JsonV>)
    ensures
        products_of(items) is Some <==> forall|i: int|
            0 <= i < items.len() ==> product_of(#[trigger] items[i]) is Some,
        products_of(items) matches Some(v) ==> v.len() == items.len() && forall|i: int|
            0 <= i < v.len() ==> Some(#[trigger] v[i]) == product_of(items[i]),
    decreases items.len(),
{
    if items.len() > 0 {
        let rest = items.drop_last();
        law_products_are_read_one_by_one(rest);
        assert(forall|i: int| 0 <= i < rest.len() ==> rest[i] == #[trigger] items[i]);
        assert(forall|i: int| 0 <= i < rest.len() ==> #[trigger] rest[i] == items[i]);
        assert(items[items.len() - 1] == items.last());
    }
}

/// A configuration that reads has a list of products. Without goals, a target or a CRM there is
/// nothing of these.
pub proof fn law_workspace_has_its_parts(j: JsonV)
    requires
        j is Object,
        workspace_of(j) is Some,
    ensures
        ({
            let w = workspace_of(j)->0;
            &&& member(j, "products"@) matches Some(JsonV::List(items)) && products_of(items) == Some(
                w.products,
            )
            &&& member(j, "goals"@) is None ==> w.goals.len() == 0
            &&& member(j, "target_rs_per_q"@) is None ==> w.target_rs_per_q is None
            &&& member(j, "target_rs_per_q"@) matches Some(JsonV::Number(n)) ==> w.target_rs_per_q
                == Some(n.text)
            &&& member(j, "crm"@) is None ==> w.crm.name.len() == 0 && w.crm.stages.len() == 0
                && !w.crm.bucket_by_delivery
            &&& member(j, "crm"@) matches Some(c) ==> crm_config_of(c) == Some(w.crm)
        }),
{
}

/// What is configured of a CRM is under its names; what is missing has a default.
pub proof fn law_crm_has_its_defaults(j: JsonV)
    requires
        j is Object,
        crm_config_of(j) is Some,
    ensures
        ({
            let c = crm_config_of(j)->0;
            &&& member(j, "name"@) is None ==> c.name == "custom"@
            &&& member(j, "name"@) matches Some(JsonV::Text(s)) ==> c.name == s
            &&& member(j, "stages"@) is None ==> c.stages == seq![
                "Lost"@,
                "NonContactable"@,
                "Contactable"@,
                "Visit"@,
                "Booking"@,
            ]
            &&& member(j, "qualified_stage"@) is None ==> c.qualified_stage == "Contactable"@
            &&& member(j, "qualified_stage"@) matches Some(JsonV::Text(s)) ==> c.qualified_stage == s
            &&& member(j, "bucket_by_delivery"@) is None ==> !c.bucket_by_delivery
            &&& member(j, "bucket_by_delivery"@) matches Some(JsonV::Bool(b))
                ==> c.bucket_by_delivery == b
            &&& member(j, "join_keys"@) is None ==> c.join_keys.ad_id.len() == 0
            &&& member(j, "join_keys"@) matches Some(k) ==> join_keys_of(k) == Some(c.join_keys)
        }),
{
}

/// The keys to join by are under their names; one that is missing has a default.
pub proof fn law_join_keys_have_their_defaults(j: JsonV)
    requires
        j is Object,
        join_keys_of(j) is Some,
    ensures
        ({
            let k = join_keys_of(j)->0;
            &&& member(j, "ad_id"@) is None ==> k.ad_id == "adId.adId"@
            &&& member(j, "ad_id"@) matches Some(JsonV::Text(s)) ==> k.ad_id == s
            &&& member(j, "adset_id"@) is None ==> k.adset_id == "adsetId.adsetId"@
            &&& member(j, "adset_id"@) matches Some(JsonV::Text(s)) ==> k.adset_id == s
        }),
{
}

/// The account of a product is that of the last product of its name.
pub proof fn law_last_account_counts(products: Seq<(Seq<char>, Seq<char>)>, k: int)
    requires
        0 <= k < products.len(),
        forall|i: int| k < i < products.len() ==> (#[trigger] products[i]).0 != products[k].0,
    ensures
        lookup(accounts_of(products), products[k].0) == Some(products[k].1),
    decreases products.len(),
{
    let rest = products.drop_last();
    let last = products.last();
    law_stored_key_is_found(accounts_of(rest), last.0, last.1);
    if k < rest.len() {
        assert(rest[k] == products[k]);
        assert forall|i: int| k < i < rest.len() implies (#[trigger] rest[i]).0 != rest[k].0 by {
            assert(rest[i] == products[i]);
        }
        law_last_account_counts(rest, k);
        assert(products[products.len() - 1].0 != products[k].0);
        assert(lookup(accounts_of(rest), products[k].0) is Some);
    }
}

// Directories

/// A path from the root stays as it is, and so does every path without a directory; else it stands
/// behind the directory, with one slash between them.
pub proof fn law_paths_stand_below(dir: Seq<char>, name: Seq<char>)
    ensures
        below(Seq::empty(), name) == name,
        below(dir, seq!['/'] + name) == seq!['/'] + name,
        dir.len() > 0 && dir.last() != '/' && (name.len() == 0 || name[0] != '/') ==> below(
            dir,
            name,
        ) == dir + "/"@ + name && below(dir.push('/'), name) == dir + "/"@ + name,
{
    reveal_strlit("/");
    assert(dir.push('/') + name =~= dir + "/"@ + name);
}

/// The root of the data is the first one that is given; where none is, it is a directory below the
/// one where the program was started.
pub proof fn law_first_root_counts(given: Seq<Option<Seq<char>>>, cwd: Seq<char>, k: int)
    ensures
        0 <= k < given.len() && given[k] is Some && (forall|i: int|
            0 <= i < k ==> (#[trigger] given[i]) is None) ==> Some(root_of(given, cwd)) == given[k],
        (forall|i: int| 0 <= i < given.len() ==> (#[trigger] given[i]) is None) ==> root_of(
            given,
            cwd,
        ) == below(cwd, "moneyball-data"@),
    decreases given.len(),
{
    if given.len() > 0 {
        let rest = given.drop_first();
        assert(forall|i: int| 0 <= i < rest.len() ==> #[trigger] rest[i] == given[i + 1]);
        law_first_root_counts(rest, cwd, k - 1);
        if 0 < k < given.len() {
            assert(rest[k - 1] == given[k]);
        }
    }
}

/// A snapshot that is asked for by its date is that one, where there is one; without a date it is
/// the latest of the names that are dates.
pub proof fn law_snapshot_is_the_one_meant(date: Seq<char>, names: Seq<Seq<char>>)
    ensures
        snap_named(Some(date), true, Some(names)) == Ok::<Seq<char>, Seq<char>>(date),
        snap_named(Some(date), false, Some(names)) == Err::<Seq<char>, Seq<char>>(date),
        snap_named(None, false, Some(names)) matches Ok(d) ==> names.contains(d) && is_date_name(d)
            && forall|i: int|
            0 <= i < names.len() && is_date_name(#[trigger] names[i]) ==> !text_lt(d, names[i]),
        snap_named(None, false, Some(names)) is Err ==> forall|i: int|
            0 <= i < names.len() ==> !is_date_name(#[trigger] names[i]),
{
    let p = |n: Seq<char>| is_date_name(n);
    let d = date_names(names);
    let s = sorted_set(d);
    law_dates_have_their_shape(names);
    law_sorted_set(d);
    broadcast use vstd::seq_lib::group_filter_ensures;

    if s.len() > 0 {
        let last = s.last();
        assert(s[s.len() - 1] == last);
        assert(s.contains(last));
        assert(d.contains(last));
        names.lemma_filter_contains_rev(p, last);
        let m = choose|m: int| 0 <= m < d.len() && d[m] == last;
        assert(p(d[m]));
        assert forall|i: int| 0 <= i < names.len() && is_date_name(
            #[trigger] names[i],
        ) implies !text_lt(last, names[i]) by {
            assert(p(names[i]));
            assert(names.filter(p).contains(names[i]));
            assert(s.contains(names[i]));
            let k = choose|k: int| 0 <= k < s.len() && s[k] == names[i];
            if k < s.len() - 1 {
                assert(text_lt(s[k], s[s.len() - 1]));
                if text_lt(last, names[i]) {
                    crate::sets::lemma_lt_transitive(last, names[i], last);
                    crate::sets::lemma_lt_irreflexive(last);
                }
            } else {
                crate::sets::lemma_lt_irreflexive(last);
            }
        }
    } else {
        assert forall|i: int| 0 <= i < names.len() implies !is_date_name(#[trigger] names[i]) by {
            if is_date_name(names[i]) {
                assert(p(names[i]));
                assert(names.filter(p).contains(names[i]));
                assert(s.contains(names[i]));
            }
        }
    }
}

} // verus!
