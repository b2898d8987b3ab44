//! What a description of a CRM means.

use crate::crm::source::{
    descend, expanded, key_map, map_read, mapped_stage, paging_read, path_in, records_of,
    request_read, resolved, scalar_text, spec_read, PagingMode,
};
use crate::json::{member, JsonV};
use crate::provider::lookup;
use crate::strs::laws::{law_occurrence_is_replaced, law_pieces_are_joined_by_the_character};
use crate::strs::{occurs_at, split_on};
use vstd::prelude::*;

verus! {

// Paths

proof fn lemma_descend_joined(j: JsonV, a: Seq<Seq<char>>, b: Seq<Seq<char>>)
    ensures
        descend(j, a + b) == match descend(j, a) {
            Some(n) => descend(n, b),
            None => None,
        },
    decreases a.len(),
{
    if a.len() == 0 {
        assert(a + b =~= b);
    } else {
        assert((a + b).drop_first() =~= a.drop_first() + b);
        match member(j, a[0]) {
            Some(n) => {
                lemma_descend_joined(n, a.drop_first(), b);
            },
            None => {},
        }
    }
}

/// A path without a dot leads to the member of that name. A path with a dot leads where its second
/// part does from where its first part does.
pub proof fn law_paths_go_part_by_part(j: JsonV, a: Seq<char>, b: Seq<char>)
    ensures
        path_in(j, a + seq!['.'] + b) == match path_in(j, a) {
            Some(n) => path_in(n, b),
            None => None,
        },
        (forall|i: int| 0 <= i < a.len() ==> #[trigger] a[i] != '.') ==> path_in(j, a) == member(
            j,
            a,
        ),
{
    law_pieces_are_joined_by_the_character(a, b, '.');
    lemma_descend_joined(j, split_on(a, '.'), split_on(b, '.'));
    if forall|i: int| 0 <= i < a.len() ==> #[trigger] a[i] != '.' {
        let one = seq![a];
        assert(one.drop_first() =~= Seq::empty());
        match member(j, a) {
            Some(n) => {
                assert(descend(n, one.drop_first()) == Some(n));
            },
            None => {},
        }
    }
}

/// A text stands for itself.
pub proof fn law_texts_stand_for_themselves(s: Seq<char>)
    ensures
        scalar_text(JsonV::Text(s)) == s,
{
}

/// The records of a reply are the list at the root, and the reply itself where the root is empty;
/// anything else fails.
pub proof fn law_records_are_the_list_at_the_root(j: JsonV, root: Seq<char>, items: Seq<JsonV>)
    ensures
        root.len() > 0 && path_in(j, root) == Some(JsonV::List(items)) ==> records_of(j, root)
            == Ok::<Seq<JsonV>, Seq<char>>(items),
        records_of(JsonV::List(items), Seq::empty()) == Ok::<Seq<JsonV>, Seq<char>>(items),
        root.len() > 0 && path_in(j, root) is None ==> records_of(j, root) == Err::<
            Seq<JsonV>,
            Seq<char>,
        >("response has nothing at map.root \""@ + root + "\""@),
        root.len() > 0 && (path_in(j, root) matches Some(n) && !(n is List)) ==> records_of(j, root)
            is Err,
{
}

/// A stage that the map names is what the map has for it; another one stays as it is.
pub proof fn law_mapped_stages_are_canonical(
    s: Seq<char>,
    t: Seq<char>,
    stage_map: Seq<(Seq<char>, Seq<char>)>,
)
    ensures
        lookup(stage_map, s) == Some(t) ==> mapped_stage(s, stage_map) == t,
        lookup(stage_map, s) is None ==> mapped_stage(s, stage_map) == s,
{
}

// References and templates

/// A value that begins with `secret:` is the secret of that name, and one that begins with `env:`
/// the variable; where there is none it fails. Every other value is itself.
pub proof fn law_references_are_resolved(
    name: Seq<char>,
    secrets: Seq<(Seq<char>, Seq<char>)>,
    env: Seq<(Seq<char>, Seq<char>)>,
)
    ensures
        lookup(secrets, name) matches Some(v) ==> resolved("secret:"@ + name, secrets, env) == Ok::<
            Seq<char>,
            Seq<char>,
        >(v),
        lookup(secrets, name) is None ==> resolved("secret:"@ + name, secrets, env) is Err,
        lookup(env, name) matches Some(v) ==> resolved("env:"@ + name, secrets, env) == Ok::<
            Seq<char>,
            Seq<char>,
        >(v),
        lookup(env, name) is None ==> resolved("env:"@ + name, secrets, env) is Err,
        !occurs_at(name, "secret:"@, 0) && !occurs_at(name, "env:"@, 0) ==> resolved(
            name,
            secrets,
            env,
        ) == Ok::<Seq<char>, Seq<char>>(name),
{
    reveal_strlit("secret:");
    reveal_strlit("env:");
    let s = "secret:"@ + name;
    assert(s.subrange(0, 7) =~= "secret:"@);
    assert(s.skip(7) =~= name);
    let e = "env:"@ + name;
    assert(e.subrange(0, 4) =~= "env:"@);
    assert(e.skip(4) =~= name);
    if occurs_at(e, "secret:"@, 0) {
        assert(e.subrange(0, 7)[0] == 'e');
        assert("secret:"@[0] == 's');
    }
}

/// A name in braces is replaced by its value, whatever is ahead of it and behind it.
pub proof fn law_template_takes_its_value(
    ahead: Seq<char>,
    behind: Seq<char>,
    name: Seq<char>,
    value: Seq<char>,
)
    requires
        forall|i: int| 0 <= i < ahead.len() ==> #[trigger] ahead[i] != '{',
        forall|i: int| 0 <= i < behind.len() ==> #[trigger] behind[i] != '{',
    ensures
        expanded(ahead + ("{"@ + name + "}"@) + behind, seq![(name, value)]) == ahead + value
            + behind,
{
    reveal_strlit("{");
    reveal_strlit("}");
    let p = "{"@ + name + "}"@;
    let vars = seq![(name, value)];
    let t = ahead + p + behind;
    assert(vars.drop_last() =~= Seq::empty());
    assert(expanded(t, vars.drop_last()) == t);
    assert(p[0] == '{');
    law_occurrence_is_replaced(ahead, behind, p, value);
    law_occurrence_is_replaced(behind, behind, p, value);
}

// Descriptions

/// The text of a member, or no characters where it is missing.
pub open spec fn text_or_none(j: JsonV, key: Seq<char>) -> Option<Seq<char>> {
    match member(j, key) {
        Some(JsonV::Text(s)) => Some(s),
        Some(_) => None,
        None => Some(Seq::empty()),
    }
}

/// A map that reads has the ad, the stage and the time of delivery, and every path under its own
/// name; the others may be missing.
pub proof fn law_map_has_its_paths(j: JsonV)
    requires
        j is Object,
        map_read(j) is Ok,
    ensures
        ({
            let m = map_read(j)->Ok_0;
            &&& member(j, "ad_id"@) == Some(JsonV::Text(m.ad_id))
            &&& member(j, "stage"@) == Some(JsonV::Text(m.stage))
            &&& member(j, "delivery"@) == Some(JsonV::Text(m.delivery))
            &&& text_or_none(j, "root"@) == Some(m.root)
            &&& text_or_none(j, "funnel"@) == Some(m.funnel)
            &&& text_or_none(j, "lead_id"@) == Some(m.lead_id)
            &&& text_or_none(j, "phone"@) == Some(m.phone)
            &&& text_or_none(j, "email"@) == Some(m.email)
            &&& key_map(member(j, "stage_map"@)) == Some(m.stage_map)
        }),
{
}

/// A map without an ad, a stage or a time of delivery does not read, and the key that is missing is
/// told.
pub proof fn law_map_needs_three_paths(j: JsonV)
    requires
        j is Object,
        text_or_none(j, "root"@) is Some,
    ensures
        member(j, "ad_id"@) is None ==> map_read(j) is Err && map_read(j)->Err_0 == "map.ad_id"@,
        member(j, "ad_id"@) matches Some(JsonV::Text(_)) ==> (member(j, "stage"@) is None
            ==> map_read(j) is Err && map_read(j)->Err_0 == "map.stage"@),
        (member(j, "ad_id"@) matches Some(JsonV::Text(_))) && (member(j, "stage"@) matches Some(
            JsonV::Text(_),
        )) && member(j, "delivery"@) is None ==> map_read(j) is Err && map_read(j)->Err_0
            == "map.delivery"@,
{
}

/// Paging that reads has its mode, the names of its two parameters, its first page and its size;
/// the first page is 1 and the size 500 where they are missing.
pub proof fn law_paging_has_its_defaults(j: JsonV)
    requires
        j is Object,
        paging_read(j) is Ok,
    ensures
        ({
            let p = paging_read(j)->Ok_0;
            &&& member(j, "mode"@) == Some(JsonV::Text("page"@)) ==> p.mode == PagingMode::Page
            &&& member(j, "mode"@) == Some(JsonV::Text("none"@)) || member(j, "mode"@) is None
                ==> p.mode == PagingMode::Single
            &&& text_or_none(j, "param"@) == Some(p.param)
            &&& text_or_none(j, "size_param"@) == Some(p.size_param)
            &&& member(j, "start"@) is None ==> p.start == 1
            &&& member(j, "size"@) is None ==> p.size == 500
            &&& member(j, "start"@) matches Some(JsonV::Number(n)) ==> n.unsigned == Some(
                p.start as u64,
            )
            &&& member(j, "size"@) matches Some(JsonV::Number(n)) ==> n.unsigned == Some(
                p.size as u64,
            )
        }),
{
    reveal_strlit("none");
    reveal_strlit("page");
    assert("none"@[0] == 'n' && "page"@[0] == 'p');
}

/// A request that reads has its address, its method, which is `GET` where it is missing, its
/// headers, its query and its body.
pub proof fn law_request_has_its_parts(j: JsonV)
    requires
        j is Object,
        request_read(j) is Ok,
    ensures
        ({
            let r = request_read(j)->Ok_0;
            &&& member(j, "url"@) == Some(JsonV::Text(r.url))
            &&& member(j, "method"@) is None ==> r.method == "GET"@
            &&& member(j, "method"@) is Some ==> member(j, "method"@) == Some(JsonV::Text(r.method))
            &&& key_map(member(j, "headers"@)) == Some(r.headers)
            &&& key_map(member(j, "query"@)) == Some(r.query)
            &&& member(j, "body"@) is None ==> r.body is None
            &&& member(j, "body"@) is Some ==> (r.body matches Some(b) && member(j, "body"@) == Some(
                JsonV::Text(b),
            ))
        }),
{
}

/// A description that reads has its name and its map; without paging there is one page.
pub proof fn law_description_has_its_tables(j: JsonV)
    requires
        spec_read(j) is Ok,
    ensures
        ({
            let s = spec_read(j)->Ok_0;
            &&& member(j, "name"@) == Some(JsonV::Text(s.name))
            &&& member(j, "map"@) matches Some(m) && map_read(m) is Ok && map_read(m)->Ok_0 == s.map
            &&& member(j, "paging"@) is None ==> s.paging.mode == PagingMode::Single
            &&& member(j, "paging"@) matches Some(p) ==> paging_read(p) is Ok
                && paging_read(p)->Ok_0 == s.paging
            &&& member(j, "request"@) is None ==> s.request is None
            &&& member(j, "request"@) matches Some(r) ==> request_read(r) is Ok && s.request == Some(
                request_read(r)->Ok_0,
            )
        }),
{
}

} // verus!
