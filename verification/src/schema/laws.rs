//! What the files of a snapshot say.

use crate::json::{member, JsonV};
use crate::schema::{
    contact_of, contacts_of, creative_row_read, creative_row_reads, creatives_of, envelope_rows,
    is_known_schema, lead_of, leads_of, rows_that_read,
};
use vstd::prelude::*;

verus! {

/// The text of a member, where it is one.
pub open spec fn text_of(o: Option<JsonV>) -> Option<Seq<char>> {
    match o {
        Some(JsonV::Text(s)) => Some(s),
        _ => None,
    }
}

/// Every field of a row stands under its own name; the id of the ad must be there.
pub proof fn law_row_is_read_by_name(j: JsonV)
    requires
        j is Object,
        creative_row_reads(j),
    ensures
        ({
            let r = creative_row_read(j);
            &&& member(j, "ad_id"@) == Some(JsonV::Text(r.ad_id))
            &&& member(j, "adset_id"@) matches Some(JsonV::Text(s)) ==> r.adset_id == s
            &&& member(j, "campaign_id"@) matches Some(JsonV::Text(s)) ==> r.campaign_id == s
            &&& member(j, "ad_name"@) matches Some(JsonV::Text(s)) ==> r.ad_name == s
            &&& member(j, "_product"@) matches Some(JsonV::Text(s)) ==> r.product == s
            &&& member(j, "adset_id"@) is None ==> r.adset_id.len() == 0
            &&& member(j, "_product"@) is None ==> r.product.len() == 0
            &&& r.image_hash == text_of(member(j, "image_hash"@))
            &&& r.video_id == text_of(member(j, "video_id"@))
            &&& r.image_basename == text_of(member(j, "image_basename"@))
            &&& r.is_video <==> member(j, "is_video"@) == Some(JsonV::Bool(true))
            &&& r.status == text_of(member(j, "status"@))
            &&& r.created_time == text_of(member(j, "created_time"@))
            &&& r.title == text_of(member(j, "title"@))
            &&& r.body == text_of(member(j, "body"@))
            &&& r.cta == text_of(member(j, "cta"@))
            &&& r.permalink == text_of(member(j, "permalink"@))
            &&& r.image_url == text_of(member(j, "image_url"@))
            &&& r.asset is Some <==> (member(j, "asset"@) matches Some(a) && !(a is Null))
        }),
{
}

/// A row without an ad is no row, nor is one with a field of another kind.
pub proof fn law_row_without_an_ad_is_none(j: JsonV)
    requires
        j is Object,
    ensures
        member(j, "ad_id"@) is None ==> !creative_row_reads(j),
        member(j, "ad_id"@) matches Some(JsonV::Null) ==> !creative_row_reads(j),
        member(j, "title"@) matches Some(JsonV::Bool(_)) ==> !creative_row_reads(j),
        member(j, "is_video"@) matches Some(JsonV::Text(_)) ==> !creative_row_reads(j),
{
}

/// Of a list the rows that read count, in their order.
pub proof fn law_rows_that_read_count(items: Seq<JsonV>)
    ensures
        rows_that_read(items) == items.filter(|j: JsonV| creative_row_reads(j)).map_values(
            |j: JsonV| creative_row_read(j),
        ),
    decreases items.len(),
{
    reveal(Seq::filter);
    let reads = |j: JsonV| creative_row_reads(j);
    let row = |j: JsonV| creative_row_read(j);
    if items.len() > 0 {
        law_rows_that_read_count(items.drop_last());
        let before = items.drop_last().filter(reads);
        if reads(items.last()) {
            assert(before.push(items.last()).map_values(row) =~= before.map_values(row).push(
                row(items.last()),
            ));
        }
    } else {
        assert(items.filter(reads).map_values(row) =~= Seq::empty());
    }
}

/// A file of creatives has a schema of major 1, whatever the minor; a bare list is one too. A file
/// of another schema counts as absent.
pub proof fn law_known_schemas_are_read(j: JsonV, s: Seq<char>, minor: Seq<char>, items: Seq<JsonV>)
    requires
        j is Object,
        member(j, "schema"@) == Some(JsonV::Text(s)),
    ensures
        is_known_schema("moneyball.creatives/1"@),
        is_known_schema("moneyball.creatives/1."@ + minor),
        !is_known_schema("moneyball.creatives/2"@),
        creatives_of(j) is Some ==> is_known_schema(s),
        creatives_of(j) matches Some(f) ==> f.schema == s && member(j, "fetched_at"@) == Some(
            JsonV::Text(f.fetched_at),
        ) && (member(j, "rows"@) matches Some(JsonV::List(v)) && f.rows == rows_that_read(v)),
        creatives_of(JsonV::List(items)) matches Some(f) && f.rows == rows_that_read(items),
        creatives_of(JsonV::Null) is None,
{
    reveal_strlit("moneyball.creatives/1");
    reveal_strlit("moneyball.creatives/1.");
    reveal_strlit("moneyball.creatives/2");
    let m = "moneyball.creatives/1."@ + minor;
    assert(m.subrange(0, "moneyball.creatives/1."@.len() as int) =~= "moneyball.creatives/1."@);
    assert("moneyball.creatives/2"@[20] == '2' && "moneyball.creatives/1"@[20] == '1');
}

/// A lead has its ids, its time, its name, its phone and its mail address under their names;
/// without its ids it is none.
pub proof fn law_lead_is_read_by_name(j: JsonV)
    requires
        j is Object,
    ensures
        lead_of(j) matches Some(l) ==> member(j, "lead_id"@) == Some(JsonV::Text(l.lead_id)) && member(
            j,
            "ad_id"@,
        ) == Some(JsonV::Text(l.ad_id)) && l.name == text_of(member(j, "name"@)) && l.phone == text_of(
            member(j, "phone"@),
        ) && l.email == text_of(member(j, "email"@)) && (member(j, "created_time"@) matches Some(
            JsonV::Text(t),
        ) ==> l.created_time == t),
        member(j, "lead_id"@) is None ==> lead_of(j) is None,
        member(j, "ad_id"@) is None ==> lead_of(j) is None,
{
}

/// A contact has its phone and its mail address under their names.
pub proof fn law_contact_is_read_by_name(j: JsonV)
    requires
        j is Object,
    ensures
        contact_of(j) matches Some(c) ==> c.phone == text_of(member(j, "phone"@)) && c.email
            == text_of(member(j, "email"@)),
{
}

/// Leads and contacts are read one by one, where every one of them reads.
pub proof fn law_rows_are_read_one_by_one(items: Seq<JsonV>)
    ensures
        leads_of(items) is Some <==> forall|i: int|
            0 <= i < items.len() ==> lead_of(#[trigger] items[i]) is Some,
        leads_of(items) matches Some(v) ==> v.len() == items.len() && forall|i: int|
            0 <= i < v.len() ==> Some(#[trigger] v[i]) == lead_of(items[i]),
        contacts_of(items) is Some <==> forall|i: int|
            0 <= i < items.len() ==> contact_of(#[trigger] items[i]) is Some,
        contacts_of(items) matches Some(v) ==> v.len() == items.len() && forall|i: int|
            0 <= i < v.len() ==> Some(#[trigger] v[i]) == contact_of(items[i]),
    decreases items.len(),
{
    if items.len() > 0 {
        let rest = items.drop_last();
        law_rows_are_read_one_by_one(rest);
        assert(forall|i: int| 0 <= i < rest.len() ==> rest[i] == #[trigger] items[i]);
        assert(forall|i: int| 0 <= i < rest.len() ==> #[trigger] rest[i] == items[i]);
        assert(items[items.len() - 1] == items.last());
    }
}

/// The rows of a file are those of its list, where its schema and its time are there.
pub proof fn law_file_holds_its_rows(j: JsonV, rows: Seq<JsonV>)
    requires
        j is Object,
    ensures
        envelope_rows(j) == Some(rows) ==> member(j, "rows"@) == Some(JsonV::List(rows)),
        member(j, "schema"@) is None ==> envelope_rows(j) is None,
        member(j, "fetched_at"@) is None ==> envelope_rows(j) is None,
{
}

} // verus!
