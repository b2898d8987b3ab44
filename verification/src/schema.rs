//! The records of the snapshot files and of the report.

use crate::crm::source::push_pair;
use crate::json::{
    distinct_keys, json_normal, json_parsed, json_plain, json_pretty, law_normal_keeps_members,
    lemma_find_index, lemma_list_push, lemma_object_plain, lemma_plain_deeper, list, list_in,
    list_view, member, nat_view, natural, object, object2, object3, opt_json, pairs_view, text,
    text_in, Json, JsonV, MAX_DEPTH,
};
use crate::records::{
    field, field_of, flag_field, flag_or_missing, is_record, opt_text_field, opt_text_reads,
    record, text_field, text_or_missing, texts_field, texts_of, texts_or_missing,
};
use crate::strs::{opt_view, views};
use vstd::prelude::*;

pub mod laws;

verus! {

pub const CREATIVES_SCHEMA: &'static str = "moneyball.creatives/1";

pub const CREATIVE_REPORT_SCHEMA: &'static str = "moneyball.creative_report/1";

pub const LEADS_SCHEMA: &'static str = "moneyball.leads/1";

pub const CRM_CONTACTS_SCHEMA: &'static str = "moneyball.crm_contacts/1";

/// A cached image, found by the hash of its bytes.
#[derive(Debug, Clone)]
pub struct AssetRef {
    pub sha256: String,
    pub content_type: String,
    pub bytes: u64,
}

#[verifier::ext_equal]
pub struct AssetRefV {
    pub sha256: Seq<char>,
    pub content_type: Seq<char>,
    pub bytes: u64,
}

impl View for AssetRef {
    type V = AssetRefV;

    open spec fn view(&self) -> AssetRefV {
        AssetRefV { sha256: self.sha256@, content_type: self.content_type@, bytes: self.bytes }
    }
}

pub open spec fn opt_asset(o: Option<AssetRef>) -> Option<AssetRefV> {
    match o {
        Some(a) => Some(a@),
        None => None,
    }
}

/// What is known of the creative of one ad.
#[derive(Debug, Clone)]
pub struct CreativeRow {
    pub ad_id: String,
    pub adset_id: String,
    pub campaign_id: String,
    pub ad_name: String,
    /// In a file: `_product`.
    pub product: String,
    pub image_hash: Option<String>,
    pub video_id: Option<String>,
    pub afs_video_ids: Vec<String>,
    pub image_basename: Option<String>,
    pub is_video: bool,
    pub status: Option<String>,
    pub created_time: Option<String>,
    pub title: Option<String>,
    pub body: Option<String>,
    pub cta: Option<String>,
    pub permalink: Option<String>,
    pub image_url: Option<String>,
    pub asset: Option<AssetRef>,
}

#[verifier::ext_equal]
pub struct CreativeRowV {
    pub ad_id: Seq<char>,
    pub adset_id: Seq<char>,
    pub campaign_id: Seq<char>,
    pub ad_name: Seq<char>,
    pub product: Seq<char>,
    pub image_hash: Option<Seq<char>>,
    pub video_id: Option<Seq<char>>,
    pub afs_video_ids: Seq<Seq<char>>,
    pub image_basename: Option<Seq<char>>,
    pub is_video: bool,
    pub status: Option<Seq<char>>,
    pub created_time: Option<Seq<char>>,
    pub title: Option<Seq<char>>,
    pub body: Option<Seq<char>>,
    pub cta: Option<Seq<char>>,
    pub permalink: Option<Seq<char>>,
    pub image_url: Option<Seq<char>>,
    pub asset: Option<AssetRefV>,
}

impl View for CreativeRow {
    type V = CreativeRowV;

    open spec fn view(&self) -> CreativeRowV {
        CreativeRowV {
            ad_id: self.ad_id@,
            adset_id: self.adset_id@,
            campaign_id: self.campaign_id@,
            ad_name: self.ad_name@,
            product: self.product@,
            image_hash: opt_view(self.image_hash),
            video_id: opt_view(self.video_id),
            afs_video_ids: views(self.afs_video_ids@),
            image_basename: opt_view(self.image_basename),
            is_video: self.is_video,
            status: opt_view(self.status),
            created_time: opt_view(self.created_time),
            title: opt_view(self.title),
            body: opt_view(self.body),
            cta: opt_view(self.cta),
            permalink: opt_view(self.permalink),
            image_url: opt_view(self.image_url),
            asset: opt_asset(self.asset),
        }
    }
}

/// The row of an ad of which nothing is known.
pub open spec fn empty_creative_row() -> CreativeRowV {
    CreativeRowV {
        ad_id: Seq::empty(),
        adset_id: Seq::empty(),
        campaign_id: Seq::empty(),
        ad_name: Seq::empty(),
        product: Seq::empty(),
        image_hash: None,
        video_id: None,
        afs_video_ids: Seq::empty(),
        image_basename: None,
        is_video: false,
        status: None,
        created_time: None,
        title: None,
        body: None,
        cta: None,
        permalink: None,
        image_url: None,
        asset: None,
    }
}

impl Default for CreativeRow {
    fn default() -> (r: Self)
        ensures
            r@ == empty_creative_row(),
    {
        let r = CreativeRow {
            ad_id: String::new(),
            adset_id: String::new(),
            campaign_id: String::new(),
            ad_name: String::new(),
            product: String::new(),
            image_hash: None,
            video_id: None,
            afs_video_ids: Vec::new(),
            image_basename: None,
            is_video: false,
            status: None,
            created_time: None,
            title: None,
            body: None,
            cta: None,
            permalink: None,
            image_url: None,
            asset: None,
        };
        assert(views(r.afs_video_ids@) =~= Seq::empty());
        r
    }
}

pub open spec fn rows_view(v: Seq<CreativeRow>) -> Seq<CreativeRowV> {
    v.map_values(|r: CreativeRow| r@)
}

/// The file `creatives.json`.
#[derive(Debug)]
pub struct CreativesFile {
    pub schema: String,
    pub fetched_at: String,
    pub rows: Vec<CreativeRow>,
}

#[verifier::ext_equal]
pub struct CreativesFileV {
    pub schema: Seq<char>,
    pub fetched_at: Seq<char>,
    pub rows: Seq<CreativeRowV>,
}

impl View for CreativesFile {
    type V = CreativesFileV;

    open spec fn view(&self) -> CreativesFileV {
        CreativesFileV {
            schema: self.schema@,
            fetched_at: self.fetched_at@,
            rows: rows_view(self.rows@),
        }
    }
}

/// One submission of a lead form. It holds personal data.
#[derive(Debug)]
pub struct LeadRow {
    pub lead_id: String,
    pub ad_id: String,
    pub created_time: String,
    pub name: Option<String>,
    pub phone: Option<String>,
    pub email: Option<String>,
}

#[verifier::ext_equal]
pub struct LeadRowV {
    pub lead_id: Seq<char>,
    pub ad_id: Seq<char>,
    pub created_time: Seq<char>,
    pub name: Option<Seq<char>>,
    pub phone: Option<Seq<char>>,
    pub email: Option<Seq<char>>,
}

impl View for LeadRow {
    type V = LeadRowV;

    open spec fn view(&self) -> LeadRowV {
        LeadRowV {
            lead_id: self.lead_id@,
            ad_id: self.ad_id@,
            created_time: self.created_time@,
            name: opt_view(self.name),
            phone: opt_view(self.phone),
            email: opt_view(self.email),
        }
    }
}

pub open spec fn leads_view(v: Seq<LeadRow>) -> Seq<LeadRowV> {
    v.map_values(|r: LeadRow| r@)
}

/// The file `leads.json`.
#[derive(Debug)]
pub struct LeadsFile {
    pub schema: String,
    pub fetched_at: String,
    pub rows: Vec<LeadRow>,
}

/// How to reach a lead that came without an ad.
#[derive(Debug)]
pub struct ContactRow {
    pub phone: Option<String>,
    pub email: Option<String>,
}

#[verifier::ext_equal]
pub struct ContactRowV {
    pub phone: Option<Seq<char>>,
    pub email: Option<Seq<char>>,
}

impl View for ContactRow {
    type V = ContactRowV;

    open spec fn view(&self) -> ContactRowV {
        ContactRowV { phone: opt_view(self.phone), email: opt_view(self.email) }
    }
}

pub open spec fn contacts_view(v: Seq<ContactRow>) -> Seq<ContactRowV> {
    v.map_values(|r: ContactRow| r@)
}

/// The file `crm_contacts.json`.
#[derive(Debug)]
pub struct CrmContactsFile {
    pub schema: String,
    pub fetched_at: String,
    pub rows: Vec<ContactRow>,
}

// Reading creatives

pub open spec fn asset_reads(j: JsonV) -> bool {
    &&& is_record(j, 3)
    &&& field(j, "sha256"@, 0) matches Some(JsonV::Text(_))
    &&& field(j, "content_type"@, 1) matches Some(JsonV::Text(_))
    &&& crate::json::nat_in(field(j, "bytes"@, 2)) is Some
}

pub open spec fn asset_read(j: JsonV) -> AssetRefV {
    AssetRefV {
        sha256: crate::json::text_or_empty(field(j, "sha256"@, 0)),
        content_type: crate::json::text_or_empty(field(j, "content_type"@, 1)),
        bytes: crate::json::nat_in(field(j, "bytes"@, 2))->0,
    }
}

/// An asset that may be missing or null, and is none then.
pub open spec fn opt_asset_reads(o: Option<JsonV>) -> bool {
    match o {
        None => true,
        Some(JsonV::Null) => true,
        Some(j) => asset_reads(j),
    }
}

pub open spec fn opt_asset_read(o: Option<JsonV>) -> Option<AssetRefV> {
    match o {
        None => None,
        Some(JsonV::Null) => None,
        Some(j) => Some(asset_read(j)),
    }
}

/// Whether a document reads as a row: the id of the ad must be there, the rest may be missing.
pub open spec fn creative_row_reads(j: JsonV) -> bool {
    &&& is_record(j, 18)
    &&& field(j, "ad_id"@, 0) matches Some(JsonV::Text(_))
    &&& text_or_missing(field(j, "adset_id"@, 1)) is Some
    &&& text_or_missing(field(j, "campaign_id"@, 2)) is Some
    &&& text_or_missing(field(j, "ad_name"@, 3)) is Some
    &&& text_or_missing(field(j, "_product"@, 4)) is Some
    &&& opt_text_reads(field(j, "image_hash"@, 5))
    &&& opt_text_reads(field(j, "video_id"@, 6))
    &&& texts_or_missing(field(j, "afs_video_ids"@, 7)) is Some
    &&& opt_text_reads(field(j, "image_basename"@, 8))
    &&& flag_or_missing(field(j, "is_video"@, 9)) is Some
    &&& opt_text_reads(field(j, "status"@, 10))
    &&& opt_text_reads(field(j, "created_time"@, 11))
    &&& opt_text_reads(field(j, "title"@, 12))
    &&& opt_text_reads(field(j, "body"@, 13))
    &&& opt_text_reads(field(j, "cta"@, 14))
    &&& opt_text_reads(field(j, "permalink"@, 15))
    &&& opt_text_reads(field(j, "image_url"@, 16))
    &&& opt_asset_reads(field(j, "asset"@, 17))
}

/// What a row says, where it reads.
pub open spec fn creative_row_read(j: JsonV) -> CreativeRowV {
    CreativeRowV {
        ad_id: text_or_missing(field(j, "ad_id"@, 0))->0,
        adset_id: text_or_missing(field(j, "adset_id"@, 1))->0,
        campaign_id: text_or_missing(field(j, "campaign_id"@, 2))->0,
        ad_name: text_or_missing(field(j, "ad_name"@, 3))->0,
        product: text_or_missing(field(j, "_product"@, 4))->0,
        image_hash: text_in(field(j, "image_hash"@, 5)),
        video_id: text_in(field(j, "video_id"@, 6)),
        afs_video_ids: texts_or_missing(field(j, "afs_video_ids"@, 7))->0,
        image_basename: text_in(field(j, "image_basename"@, 8)),
        is_video: flag_or_missing(field(j, "is_video"@, 9))->0,
        status: text_in(field(j, "status"@, 10)),
        created_time: text_in(field(j, "created_time"@, 11)),
        title: text_in(field(j, "title"@, 12)),
        body: text_in(field(j, "body"@, 13)),
        cta: text_in(field(j, "cta"@, 14)),
        permalink: text_in(field(j, "permalink"@, 15)),
        image_url: text_in(field(j, "image_url"@, 16)),
        asset: opt_asset_read(field(j, "asset"@, 17)),
    }
}

fn required_text(o: Option<&Json>) -> (r: Option<String>)
    ensures
        match r {
            Some(s) => opt_json(o) == Some(JsonV::Text(s@)),
            None => !(opt_json(o) matches Some(JsonV::Text(_))),
        },
{
    match o {
        Some(j) => match j {
            Json::Text(s) => Some(s.clone()),
            _ => None,
        },
        None => None,
    }
}

fn read_asset(o: Option<&Json>) -> (r: Option<Option<AssetRef>>)
    ensures
        match r {
            Some(a) => opt_asset_reads(opt_json(o)) && opt_asset(a) == opt_asset_read(opt_json(o)),
            None => !opt_asset_reads(opt_json(o)),
        },
{
    match o {
        None => Some(None),
        Some(j) => {
            if j.is_null() {
                return Some(None);
            }
            if !record(j, 3) {
                return None;
            }
            let bytes: Option<u64> = match field_of(j, "bytes", 2) {
                Some(n) => n.as_u64(),
                None => None,
            };
            match (
                required_text(field_of(j, "sha256", 0)),
                required_text(field_of(j, "content_type", 1)),
                bytes,
            ) {
                (Some(sha256), Some(content_type), Some(bytes)) => Some(
                    Some(AssetRef { sha256, content_type, bytes }),
                ),
                _ => None,
            }
        },
    }
}

/// Reads the row of an ad.
pub fn read_creative_row(j: &Json) -> (r: Option<CreativeRow>)
    ensures
        match r {
            Some(row) => creative_row_reads(j@) && row@ == creative_row_read(j@),
            None => !creative_row_reads(j@),
        },
{
    if !record(j, 18) {
        return None;
    }
    let head = match (
        required_text(field_of(j, "ad_id", 0)),
        text_field(field_of(j, "adset_id", 1)),
        text_field(field_of(j, "campaign_id", 2)),
        text_field(field_of(j, "ad_name", 3)),
        text_field(field_of(j, "_product", 4)),
    ) {
        (Some(a), Some(b), Some(c), Some(d), Some(e)) => (a, b, c, d, e),
        _ => {
            return None;
        },
    };
    let facts = match (
        opt_text_field(field_of(j, "image_hash", 5)),
        opt_text_field(field_of(j, "video_id", 6)),
        texts_field(field_of(j, "afs_video_ids", 7)),
        opt_text_field(field_of(j, "image_basename", 8)),
        flag_field(field_of(j, "is_video", 9)),
    ) {
        (Some(a), Some(b), Some(c), Some(d), Some(e)) => (a, b, c, d, e),
        _ => {
            return None;
        },
    };
    let shown = match (
        opt_text_field(field_of(j, "status", 10)),
        opt_text_field(field_of(j, "created_time", 11)),
        opt_text_field(field_of(j, "title", 12)),
        opt_text_field(field_of(j, "body", 13)),
        opt_text_field(field_of(j, "cta", 14)),
    ) {
        (Some(a), Some(b), Some(c), Some(d), Some(e)) => (a, b, c, d, e),
        _ => {
            return None;
        },
    };
    let refs = match (
        opt_text_field(field_of(j, "permalink", 15)),
        opt_text_field(field_of(j, "image_url", 16)),
        read_asset(field_of(j, "asset", 17)),
    ) {
        (Some(a), Some(b), Some(c)) => (a, b, c),
        _ => {
            return None;
        },
    };
    Some(
        CreativeRow {
            ad_id: head.0,
            adset_id: head.1,
            campaign_id: head.2,
            ad_name: head.3,
            product: head.4,
            image_hash: facts.0,
            video_id: facts.1,
            afs_video_ids: facts.2,
            image_basename: facts.3,
            is_video: facts.4,
            status: shown.0,
            created_time: shown.1,
            title: shown.2,
            body: shown.3,
            cta: shown.4,
            permalink: refs.0,
            image_url: refs.1,
            asset: refs.2,
        },
    )
}

/// The rows of a list that read; the others are left out.
pub open spec fn rows_that_read(items: Seq<JsonV>) -> Seq<CreativeRowV>
    decreases items.len(),
{
    if items.len() == 0 {
        Seq::empty()
    } else {
        let before = rows_that_read(items.drop_last());
        if creative_row_reads(items.last()) {
            before.push(creative_row_read(items.last()))
        } else {
            before
        }
    }
}

fn read_rows(items: &Vec<Json>) -> (r: Vec<CreativeRow>)
    ensures
        rows_view(r@) == rows_that_read(list_view(items@)),
{
    let ghost all = list_view(items@);
    let mut out: Vec<CreativeRow> = Vec::new();
    let mut i: usize = 0;
    assert(rows_view(out@) =~= Seq::empty());
    assert(all.take(0) =~= Seq::empty());
    while i < items.len()
        invariant
            i <= items@.len(),
            all == list_view(items@),
            rows_view(out@) == rows_that_read(all.take(i as int)),
        decreases items.len() - i,
    {
        assert(all.take(i + 1).drop_last() =~= all.take(i as int));
        assert(all[i as int] == items@[i as int]@);
        match read_creative_row(&items[i]) {
            Some(row) => {
                assert(rows_view(out@.push(row)) =~= rows_view(out@).push(row@));
                out.push(row);
            },
            None => {},
        }
        i += 1;
    }
    assert(all.take(i as int) =~= all);
    out
}

/// Whether a file of creatives reads: its schema, its time and its rows are there.
pub open spec fn creatives_reads(j: JsonV) -> bool {
    &&& field(j, "schema"@, 0) matches Some(JsonV::Text(_))
    &&& field(j, "fetched_at"@, 1) matches Some(JsonV::Text(_))
    &&& list_in(field(j, "rows"@, 2)) is Some
}

/// Whether a schema of creatives is one of major 1.
pub open spec fn is_known_schema(s: Seq<char>) -> bool {
    s == CREATIVES_SCHEMA@ || crate::strs::occurs_at(s, "moneyball.creatives/1."@, 0)
}

/// What `creatives.json` says: an object with a known schema, or a bare list of rows. Of the rows
/// those count that read. Anything else counts as absent.
pub open spec fn creatives_of(j: JsonV) -> Option<CreativesFileV> {
    match j {
        JsonV::Object(_) => match text_in(member(j, "schema"@)) {
            Some(s) => if is_known_schema(s) && creatives_reads(j) {
                Some(
                    CreativesFileV {
                        schema: s,
                        fetched_at: crate::json::text_or_empty(member(j, "fetched_at"@)),
                        rows: rows_that_read(list_in(member(j, "rows"@))->0),
                    },
                )
            } else {
                None
            },
            None => None,
        },
        JsonV::List(items) => Some(
            CreativesFileV {
                schema: "moneyball.creatives/0"@,
                fetched_at: Seq::empty(),
                rows: rows_that_read(items),
            },
        ),
        _ => None,
    }
}

proof fn lemma_all_rows_read(items: Seq<JsonV>)
    requires
        forall|i: int| 0 <= i < items.len() ==> creative_row_reads(#[trigger] items[i]),
    ensures
        rows_that_read(items) == items.map_values(|r: JsonV| creative_row_read(r)),
    decreases items.len(),
{
    if items.len() > 0 {
        let rest = items.drop_last();
        assert(forall|i: int| 0 <= i < rest.len() ==> #[trigger] rest[i] == items[i]);
        lemma_all_rows_read(rest);
        assert(creative_row_reads(items[items.len() - 1]));
        assert(items.map_values(|r: JsonV| creative_row_read(r)) =~= rest.map_values(
            |r: JsonV| creative_row_read(r),
        ).push(creative_row_read(items.last())));
    } else {
        assert(items.map_values(|r: JsonV| creative_row_read(r)) =~= Seq::empty());
    }
}

/// Reads `creatives.json`.
pub fn parse_creatives(j: &Json) -> (r: Option<CreativesFile>)
    ensures
        match r {
            Some(f) => creatives_of(j@) == Some(f@),
            None => creatives_of(j@) is None,
        },
{
    proof {
        crate::json::lemma_list_view(*j);
    }
    match j {
        Json::Object(_) => {
            let schema = match required_text(j.get("schema")) {
                Some(s) => s,
                None => {
                    return None;
                },
            };
            if !(crate::strs::same(schema.as_str(), CREATIVES_SCHEMA) || crate::strs::starts_with(
                schema.as_str(),
                "moneyball.creatives/1.",
            )) {
                return None;
            }
            let fetched_at = match required_text(j.get("fetched_at")) {
                Some(s) => s,
                None => {
                    return None;
                },
            };
            let items = match j.get("rows") {
                None => {
                    return None;
                },
                Some(l) => match l.as_array() {
                    None => {
                        return None;
                    },
                    Some(items) => items,
                },
            };
            Some(CreativesFile { schema, fetched_at, rows: read_rows(items) })
        },
        Json::List(items) => Some(
            CreativesFile {
                schema: "moneyball.creatives/0".to_owned(),
                fetched_at: String::new(),
                rows: read_rows(items),
            },
        ),
        _ => None,
    }
}

// Writing creatives

pub open spec fn opt_text_json(o: Option<Seq<char>>) -> JsonV {
    match o {
        Some(s) => JsonV::Text(s),
        None => JsonV::Null,
    }
}

pub open spec fn texts_json(v: Seq<Seq<char>>) -> JsonV {
    JsonV::List(v.map_values(|s: Seq<char>| JsonV::Text(s)))
}

pub open spec fn opt_asset_json(o: Option<AssetRefV>) -> JsonV {
    match o {
        Some(a) => JsonV::Object(
            seq![
                ("sha256"@, JsonV::Text(a.sha256)),
                ("content_type"@, JsonV::Text(a.content_type)),
                ("bytes"@, nat_view(a.bytes)),
            ],
        ),
        None => JsonV::Null,
    }
}

/// The document of a row.
pub open spec fn creative_document(r: CreativeRowV) -> JsonV {
    JsonV::Object(
        seq![
            ("ad_id"@, JsonV::Text(r.ad_id)),
            ("adset_id"@, JsonV::Text(r.adset_id)),
            ("campaign_id"@, JsonV::Text(r.campaign_id)),
            ("ad_name"@, JsonV::Text(r.ad_name)),
            ("_product"@, JsonV::Text(r.product)),
            ("image_hash"@, opt_text_json(r.image_hash)),
            ("video_id"@, opt_text_json(r.video_id)),
            ("afs_video_ids"@, texts_json(r.afs_video_ids)),
            ("image_basename"@, opt_text_json(r.image_basename)),
            ("is_video"@, JsonV::Bool(r.is_video)),
            ("status"@, opt_text_json(r.status)),
            ("created_time"@, opt_text_json(r.created_time)),
            ("title"@, opt_text_json(r.title)),
            ("body"@, opt_text_json(r.body)),
            ("cta"@, opt_text_json(r.cta)),
            ("permalink"@, opt_text_json(r.permalink)),
            ("image_url"@, opt_text_json(r.image_url)),
            ("asset"@, opt_asset_json(r.asset)),
        ],
    )
}

proof fn lemma_creative_keys()
    ensures
        "ad_id"@.len() == 5,
        "ad_id"@[0] == 'a',
        "ad_id"@[1] == 'd',
        "adset_id"@.len() == 8,
        "adset_id"@[0] == 'a',
        "adset_id"@[1] == 'd',
        "campaign_id"@.len() == 11,
        "campaign_id"@[0] == 'c',
        "campaign_id"@[1] == 'a',
        "ad_name"@.len() == 7,
        "ad_name"@[0] == 'a',
        "ad_name"@[1] == 'd',
        "_product"@.len() == 8,
        "_product"@[0] == '_',
        "_product"@[1] == 'p',
        "image_hash"@.len() == 10,
        "image_hash"@[0] == 'i',
        "image_hash"@[1] == 'm',
        "video_id"@.len() == 8,
        "video_id"@[0] == 'v',
        "video_id"@[1] == 'i',
        "afs_video_ids"@.len() == 13,
        "afs_video_ids"@[0] == 'a',
        "afs_video_ids"@[1] == 'f',
        "image_basename"@.len() == 14,
        "image_basename"@[0] == 'i',
        "image_basename"@[1] == 'm',
        "is_video"@.len() == 8,
        "is_video"@[0] == 'i',
        "is_video"@[1] == 's',
        "status"@.len() == 6,
        "status"@[0] == 's',
        "status"@[1] == 't',
        "created_time"@.len() == 12,
        "created_time"@[0] == 'c',
        "created_time"@[1] == 'r',
        "title"@.len() == 5,
        "title"@[0] == 't',
        "title"@[1] == 'i',
        "body"@.len() == 4,
        "body"@[0] == 'b',
        "body"@[1] == 'o',
        "cta"@.len() == 3,
        "cta"@[0] == 'c',
        "cta"@[1] == 't',
        "permalink"@.len() == 9,
        "permalink"@[0] == 'p',
        "permalink"@[1] == 'e',
        "image_url"@.len() == 9,
        "image_url"@[0] == 'i',
        "image_url"@[1] == 'm',
        "asset"@.len() == 5,
        "asset"@[0] == 'a',
        "asset"@[1] == 's',
{
    reveal_strlit("ad_id");
    reveal_strlit("adset_id");
    reveal_strlit("campaign_id");
    reveal_strlit("ad_name");
    reveal_strlit("_product");
    reveal_strlit("image_hash");
    reveal_strlit("video_id");
    reveal_strlit("afs_video_ids");
    reveal_strlit("image_basename");
    reveal_strlit("is_video");
    reveal_strlit("status");
    reveal_strlit("created_time");
    reveal_strlit("title");
    reveal_strlit("body");
    reveal_strlit("cta");
    reveal_strlit("permalink");
    reveal_strlit("image_url");
    reveal_strlit("asset");
}

proof fn lemma_creative_distinct(r: CreativeRowV)
    ensures
        distinct_keys(creative_document(r)->Object_0),
{
    lemma_creative_keys();
}

fn opt_text_of(o: &Option<String>) -> (r: Json)
    ensures
        r@ == opt_text_json(opt_view(*o)),
{
    match o {
        Some(s) => text(s.as_str()),
        None => Json::Null,
    }
}

fn texts_of_list(v: &Vec<String>) -> (r: Json)
    ensures
        r@ == texts_json(views(v@)),
{
    let ghost all = texts_json(views(v@))->List_0;
    let mut out: Vec<Json> = Vec::new();
    let mut i: usize = 0;
    assert(list_view(out@) =~= all.take(0));
    while i < v.len()
        invariant
            i <= v@.len(),
            all == texts_json(views(v@))->List_0,
            list_view(out@) == all.take(i as int),
        decreases v.len() - i,
    {
        let t = text(v[i].as_str());
        proof {
            assert(views(v@)[i as int] == v@[i as int]@);
            lemma_list_push(out@, t);
            assert(all.take(i + 1) =~= all.take(i as int).push(t@));
        }
        out.push(t);
        i += 1;
    }
    assert(all.take(i as int) =~= all);
    list(out)
}

fn asset_of(o: &Option<AssetRef>) -> (r: Json)
    ensures
        r@ == opt_asset_json(opt_asset(*o)),
{
    match o {
        Some(a) => object3(
            "sha256",
            text(a.sha256.as_str()),
            "content_type",
            text(a.content_type.as_str()),
            "bytes",
            natural(a.bytes),
        ),
        None => Json::Null,
    }
}

/// Writes the row of an ad.
pub fn creative_json(r: &CreativeRow) -> (j: Json)
    ensures
        j@ == creative_document(r@),
{
    let mut out: Vec<(String, Json)> = Vec::new();
    push_pair(&mut out, "ad_id", text(r.ad_id.as_str()));
    push_pair(&mut out, "adset_id", text(r.adset_id.as_str()));
    push_pair(&mut out, "campaign_id", text(r.campaign_id.as_str()));
    push_pair(&mut out, "ad_name", text(r.ad_name.as_str()));
    push_pair(&mut out, "_product", text(r.product.as_str()));
    push_pair(&mut out, "image_hash", opt_text_of(&r.image_hash));
    push_pair(&mut out, "video_id", opt_text_of(&r.video_id));
    push_pair(&mut out, "afs_video_ids", texts_of_list(&r.afs_video_ids));
    push_pair(&mut out, "image_basename", opt_text_of(&r.image_basename));
    push_pair(&mut out, "is_video", Json::Bool(r.is_video));
    push_pair(&mut out, "status", opt_text_of(&r.status));
    push_pair(&mut out, "created_time", opt_text_of(&r.created_time));
    push_pair(&mut out, "title", opt_text_of(&r.title));
    push_pair(&mut out, "body", opt_text_of(&r.body));
    push_pair(&mut out, "cta", opt_text_of(&r.cta));
    push_pair(&mut out, "permalink", opt_text_of(&r.permalink));
    push_pair(&mut out, "image_url", opt_text_of(&r.image_url));
    push_pair(&mut out, "asset", asset_of(&r.asset));
    assert(pairs_view(out@) =~= creative_document(r@)->Object_0);
    object(out)
}

proof fn lemma_texts_back(v: Seq<Seq<char>>)
    ensures
        json_normal(texts_json(v)) == texts_json(v),
        texts_of(texts_json(v)->List_0) == Some(v),
        json_plain(texts_json(v), 1),
    decreases v.len(),
{
    let items = texts_json(v)->List_0;
    assert(json_normal(texts_json(v))->List_0 =~= items) by {
        reveal_with_fuel(json_normal, 2);
    }
    assert(json_plain(texts_json(v), 1)) by {
        reveal_with_fuel(json_plain, 2);
    }
    if v.len() > 0 {
        lemma_texts_back(v.drop_last());
        assert(items.drop_last() =~= texts_json(v.drop_last())->List_0);
        assert(v.drop_last().push(v.last()) =~= v);
    } else {
        assert(v =~= Seq::empty());
    }
}

proof fn lemma_asset_back(o: Option<AssetRefV>)
    requires
        o matches Some(a) ==> a.bytes <= 0x20_0000_0000_0000,
    ensures
        opt_asset_reads(Some(json_normal(opt_asset_json(o)))),
        opt_asset_read(Some(json_normal(opt_asset_json(o)))) == o,
        json_plain(json_normal(opt_asset_json(o)), 1),
{
    match o {
        Some(a) => {
            reveal_strlit("sha256");
            reveal_strlit("content_type");
            reveal_strlit("bytes");
            assert("sha256"@.len() == 6 && "content_type"@.len() == 12 && "bytes"@.len() == 5);
            let d = opt_asset_json(o)->Object_0;
            assert(distinct_keys(d));
            lemma_find_index(d, "sha256"@, 0);
            lemma_find_index(d, "content_type"@, 1);
            lemma_find_index(d, "bytes"@, 2);
            law_normal_keeps_members(d, "sha256"@);
            law_normal_keeps_members(d, "content_type"@);
            law_normal_keeps_members(d, "bytes"@);
            assert(json_normal(nat_view(a.bytes)) == nat_view(a.bytes));
            lemma_object_plain(d, 1);
        },
        None => {},
    }
}

proof fn lemma_row_back(r: CreativeRowV)
    requires
        r.asset matches Some(a) ==> a.bytes <= 0x20_0000_0000_0000,
    ensures
        creative_row_reads(json_normal(creative_document(r))),
        creative_row_read(json_normal(creative_document(r))) == r,
        json_plain(json_normal(creative_document(r)), 2),
{
    let d = creative_document(r)->Object_0;
    lemma_creative_distinct(r);
    lemma_find_index(d, "ad_id"@, 0);
    law_normal_keeps_members(d, "ad_id"@);
    lemma_find_index(d, "adset_id"@, 1);
    law_normal_keeps_members(d, "adset_id"@);
    lemma_find_index(d, "campaign_id"@, 2);
    law_normal_keeps_members(d, "campaign_id"@);
    lemma_find_index(d, "ad_name"@, 3);
    law_normal_keeps_members(d, "ad_name"@);
    lemma_find_index(d, "_product"@, 4);
    law_normal_keeps_members(d, "_product"@);
    lemma_find_index(d, "image_hash"@, 5);
    law_normal_keeps_members(d, "image_hash"@);
    lemma_find_index(d, "video_id"@, 6);
    law_normal_keeps_members(d, "video_id"@);
    lemma_find_index(d, "afs_video_ids"@, 7);
    law_normal_keeps_members(d, "afs_video_ids"@);
    lemma_find_index(d, "image_basename"@, 8);
    law_normal_keeps_members(d, "image_basename"@);
    lemma_find_index(d, "is_video"@, 9);
    law_normal_keeps_members(d, "is_video"@);
    lemma_find_index(d, "status"@, 10);
    law_normal_keeps_members(d, "status"@);
    lemma_find_index(d, "created_time"@, 11);
    law_normal_keeps_members(d, "created_time"@);
    lemma_find_index(d, "title"@, 12);
    law_normal_keeps_members(d, "title"@);
    lemma_find_index(d, "body"@, 13);
    law_normal_keeps_members(d, "body"@);
    lemma_find_index(d, "cta"@, 14);
    law_normal_keeps_members(d, "cta"@);
    lemma_find_index(d, "permalink"@, 15);
    law_normal_keeps_members(d, "permalink"@);
    lemma_find_index(d, "image_url"@, 16);
    law_normal_keeps_members(d, "image_url"@);
    lemma_find_index(d, "asset"@, 17);
    law_normal_keeps_members(d, "asset"@);
    lemma_texts_back(r.afs_video_ids);
    lemma_asset_back(r.asset);
    assert forall|i: int| 0 <= i < d.len() implies json_plain(
        json_normal((#[trigger] d[i]).1),
        1,
    ) by {
        if i == 7 {
            assert(d[i].1 == texts_json(r.afs_video_ids));
        } else if i == 17 {
            assert(d[i].1 == opt_asset_json(r.asset));
        } else {
            assert(!(d[i].1 is List) && !(d[i].1 is Object) && !(d[i].1 is Number));
        }
    }
    lemma_object_plain(d, 2);
}

pub open spec fn rows_json(rows: Seq<CreativeRowV>) -> JsonV {
    JsonV::List(rows.map_values(|r: CreativeRowV| creative_document(r)))
}

/// The document of a file of creatives.
pub open spec fn creatives_document(f: CreativesFileV) -> JsonV {
    JsonV::Object(
        seq![
            ("schema"@, JsonV::Text(f.schema)),
            ("fetched_at"@, JsonV::Text(f.fetched_at)),
            ("rows"@, rows_json(f.rows)),
        ],
    )
}

/// Whether a file has the schema that is written, and no image of more than 53 bits of bytes.
pub open spec fn is_common_file(f: CreativesFileV) -> bool {
    &&& f.schema == CREATIVES_SCHEMA@
    &&& forall|i: int|
        0 <= i < f.rows.len() ==> ((#[trigger] f.rows[i]).asset matches Some(a) ==> a.bytes
            <= 0x20_0000_0000_0000)
}

proof fn lemma_file_back(f: CreativesFileV)
    requires
        is_common_file(f),
    ensures
        creatives_of(json_normal(creatives_document(f))) == Some(f),
        json_plain(json_normal(creatives_document(f)), MAX_DEPTH as int),
{
    reveal_strlit("schema");
    reveal_strlit("fetched_at");
    reveal_strlit("rows");
    assert("schema"@.len() == 6 && "fetched_at"@.len() == 10 && "rows"@.len() == 4);
    let d = creatives_document(f)->Object_0;
    assert(distinct_keys(d));
    lemma_find_index(d, "schema"@, 0);
    lemma_find_index(d, "fetched_at"@, 1);
    lemma_find_index(d, "rows"@, 2);
    law_normal_keeps_members(d, "schema"@);
    law_normal_keeps_members(d, "fetched_at"@);
    law_normal_keeps_members(d, "rows"@);
    let items = json_normal(rows_json(f.rows))->List_0;
    assert(items.len() == f.rows.len());
    assert forall|i: int| 0 <= i < items.len() implies creative_row_reads(#[trigger] items[i])
        && creative_row_read(items[i]) == f.rows[i] && json_plain(items[i], MAX_DEPTH - 2) by {
        lemma_row_back(f.rows[i]);
        assert(items[i] == json_normal(creative_document(f.rows[i])));
        lemma_plain_deeper(items[i], 2, MAX_DEPTH - 2);
    }
    lemma_all_rows_read(items);
    assert(items.map_values(|r: JsonV| creative_row_read(r)) =~= f.rows);
    assert(json_plain(json_normal(rows_json(f.rows)), MAX_DEPTH - 1));
    lemma_object_plain(d, MAX_DEPTH as int);
}

/// Writes a file of creatives.
pub fn creatives_json(f: &CreativesFile) -> (j: Json)
    ensures
        j@ == creatives_document(f@),
{
    let ghost all = rows_json(rows_view(f.rows@))->List_0;
    let mut out: Vec<Json> = Vec::new();
    let mut i: usize = 0;
    assert(list_view(out@) =~= all.take(0));
    while i < f.rows.len()
        invariant
            i <= f.rows@.len(),
            all == rows_json(rows_view(f.rows@))->List_0,
            list_view(out@) == all.take(i as int),
        decreases f.rows.len() - i,
    {
        let t = creative_json(&f.rows[i]);
        proof {
            assert(rows_view(f.rows@)[i as int] == f.rows@[i as int]@);
            lemma_list_push(out@, t);
            assert(all.take(i + 1) =~= all.take(i as int).push(t@));
        }
        out.push(t);
        i += 1;
    }
    assert(all.take(i as int) =~= all);
    object3(
        "schema",
        text(f.schema.as_str()),
        "fetched_at",
        text(f.fetched_at.as_str()),
        "rows",
        list(out),
    )
}

/// What the text of a file of creatives says.
pub open spec fn creatives_in(raw: Seq<char>) -> Option<CreativesFileV> {
    match json_parsed(raw) {
        Ok(j) => creatives_of(j),
        Err(_) => None,
    }
}

/// The text of a file of creatives. A common one is read back.
pub fn creatives_text(f: &CreativesFile) -> (r: String)
    ensures
        r@ == json_pretty(json_normal(creatives_document(f@))),
        is_common_file(f@) ==> creatives_in(r@) == Some(f@),
{
    proof {
        if is_common_file(f@) {
            lemma_file_back(f@);
        }
    }
    creatives_json(f).to_pretty()
}

// Leads and contacts

pub open spec fn lead_document(r: LeadRowV) -> JsonV {
    JsonV::Object(
        seq![
            ("lead_id"@, JsonV::Text(r.lead_id)),
            ("ad_id"@, JsonV::Text(r.ad_id)),
            ("created_time"@, JsonV::Text(r.created_time)),
            ("name"@, opt_text_json(r.name)),
            ("phone"@, opt_text_json(r.phone)),
            ("email"@, opt_text_json(r.email)),
        ],
    )
}

/// The lead that a document holds: its ids must be there, the rest may be missing.
pub open spec fn lead_of(j: JsonV) -> Option<LeadRowV> {
    match (field(j, "lead_id"@, 0), field(j, "ad_id"@, 1), text_or_missing(field(j, "created_time"@, 2))) {
        (Some(JsonV::Text(lead_id)), Some(JsonV::Text(ad_id)), Some(created_time)) => if is_record(
            j,
            6,
        ) && opt_text_reads(field(j, "name"@, 3)) && opt_text_reads(field(j, "phone"@, 4))
            && opt_text_reads(field(j, "email"@, 5)) {
            Some(
                LeadRowV {
                    lead_id,
                    ad_id,
                    created_time,
                    name: text_in(field(j, "name"@, 3)),
                    phone: text_in(field(j, "phone"@, 4)),
                    email: text_in(field(j, "email"@, 5)),
                },
            )
        } else {
            None
        },
        _ => None,
    }
}

/// Reads a lead.
pub fn read_lead(j: &Json) -> (r: Option<LeadRow>)
    ensures
        match r {
            Some(l) => lead_of(j@) == Some(l@),
            None => lead_of(j@) is None,
        },
{
    if !record(j, 6) {
        return None;
    }
    let ids = match (
        required_text(field_of(j, "lead_id", 0)),
        required_text(field_of(j, "ad_id", 1)),
        text_field(field_of(j, "created_time", 2)),
    ) {
        (Some(a), Some(b), Some(c)) => (a, b, c),
        _ => {
            return None;
        },
    };
    match (
        opt_text_field(field_of(j, "name", 3)),
        opt_text_field(field_of(j, "phone", 4)),
        opt_text_field(field_of(j, "email", 5)),
    ) {
        (Some(name), Some(phone), Some(email)) => Some(
            LeadRow { lead_id: ids.0, ad_id: ids.1, created_time: ids.2, name, phone, email },
        ),
        _ => None,
    }
}

/// Writes a lead.
pub fn lead_json(r: &LeadRow) -> (j: Json)
    ensures
        j@ == lead_document(r@),
{
    let mut out: Vec<(String, Json)> = Vec::new();
    push_pair(&mut out, "lead_id", text(r.lead_id.as_str()));
    push_pair(&mut out, "ad_id", text(r.ad_id.as_str()));
    push_pair(&mut out, "created_time", text(r.created_time.as_str()));
    push_pair(&mut out, "name", opt_text_of(&r.name));
    push_pair(&mut out, "phone", opt_text_of(&r.phone));
    push_pair(&mut out, "email", opt_text_of(&r.email));
    assert(pairs_view(out@) =~= lead_document(r@)->Object_0);
    object(out)
}

proof fn lemma_lead_back(r: LeadRowV)
    ensures
        lead_of(json_normal(lead_document(r))) == Some(r),
        json_plain(json_normal(lead_document(r)), 1),
{
    reveal_strlit("lead_id");
    reveal_strlit("ad_id");
    reveal_strlit("created_time");
    reveal_strlit("name");
    reveal_strlit("phone");
    reveal_strlit("email");
    assert("lead_id"@.len() == 7 && "ad_id"@.len() == 5 && "created_time"@.len() == 12
        && "name"@.len() == 4 && "phone"@.len() == 5 && "email"@.len() == 5);
    assert("ad_id"@[0] == 'a' && "phone"@[0] == 'p' && "email"@[0] == 'e');
    let d = lead_document(r)->Object_0;
    assert(distinct_keys(d));
    lemma_find_index(d, "lead_id"@, 0);
    lemma_find_index(d, "ad_id"@, 1);
    lemma_find_index(d, "created_time"@, 2);
    lemma_find_index(d, "name"@, 3);
    lemma_find_index(d, "phone"@, 4);
    lemma_find_index(d, "email"@, 5);
    law_normal_keeps_members(d, "lead_id"@);
    law_normal_keeps_members(d, "ad_id"@);
    law_normal_keeps_members(d, "created_time"@);
    law_normal_keeps_members(d, "name"@);
    law_normal_keeps_members(d, "phone"@);
    law_normal_keeps_members(d, "email"@);
    assert forall|i: int| 0 <= i < d.len() implies json_plain(
        json_normal((#[trigger] d[i]).1),
        0,
    ) by {
        assert(!(d[i].1 is List) && !(d[i].1 is Object) && !(d[i].1 is Number));
    }
    lemma_object_plain(d, 1);
}

pub open spec fn contact_document(r: ContactRowV) -> JsonV {
    JsonV::Object(seq![("phone"@, opt_text_json(r.phone)), ("email"@, opt_text_json(r.email))])
}

/// The contact that a document holds.
pub open spec fn contact_of(j: JsonV) -> Option<ContactRowV> {
    if is_record(j, 2) && opt_text_reads(field(j, "phone"@, 0)) && opt_text_reads(
        field(j, "email"@, 1),
    ) {
        Some(
            ContactRowV {
                phone: text_in(field(j, "phone"@, 0)),
                email: text_in(field(j, "email"@, 1)),
            },
        )
    } else {
        None
    }
}

/// Reads a contact.
pub fn read_contact(j: &Json) -> (r: Option<ContactRow>)
    ensures
        match r {
            Some(c) => contact_of(j@) == Some(c@),
            None => contact_of(j@) is None,
        },
{
    if !record(j, 2) {
        return None;
    }
    match (opt_text_field(field_of(j, "phone", 0)), opt_text_field(field_of(j, "email", 1))) {
        (Some(phone), Some(email)) => Some(ContactRow { phone, email }),
        _ => None,
    }
}

/// Writes a contact.
pub fn contact_json(r: &ContactRow) -> (j: Json)
    ensures
        j@ == contact_document(r@),
{
    object2("phone", opt_text_of(&r.phone), "email", opt_text_of(&r.email))
}

proof fn lemma_contact_back(r: ContactRowV)
    ensures
        contact_of(json_normal(contact_document(r))) == Some(r),
        json_plain(json_normal(contact_document(r)), 1),
{
    reveal_strlit("phone");
    reveal_strlit("email");
    assert("phone"@[0] == 'p' && "email"@[0] == 'e');
    let d = contact_document(r)->Object_0;
    assert(distinct_keys(d));
    lemma_find_index(d, "phone"@, 0);
    lemma_find_index(d, "email"@, 1);
    law_normal_keeps_members(d, "phone"@);
    law_normal_keeps_members(d, "email"@);
    assert forall|i: int| 0 <= i < d.len() implies json_plain(
        json_normal((#[trigger] d[i]).1),
        0,
    ) by {
        assert(!(d[i].1 is List) && !(d[i].1 is Object) && !(d[i].1 is Number));
    }
    lemma_object_plain(d, 1);
}

/// A file of rows: its schema, its time and the documents of its rows.
pub open spec fn envelope(schema: Seq<char>, fetched_at: Seq<char>, rows: Seq<JsonV>) -> JsonV {
    JsonV::Object(
        seq![
            ("schema"@, JsonV::Text(schema)),
            ("fetched_at"@, JsonV::Text(fetched_at)),
            ("rows"@, JsonV::List(rows)),
        ],
    )
}

/// The rows that a file holds, where its schema and its time are there.
pub open spec fn envelope_rows(j: JsonV) -> Option<Seq<JsonV>> {
    match (field(j, "schema"@, 0), field(j, "fetched_at"@, 1)) {
        (Some(JsonV::Text(_)), Some(JsonV::Text(_))) => if is_record(j, 3) {
            list_in(field(j, "rows"@, 2))
        } else {
            None
        },
        _ => None,
    }
}

pub(crate) fn rows_in<'a>(j: &'a Json) -> (r: Option<&'a Vec<Json>>)
    ensures
        match r {
            Some(v) => envelope_rows(j@) == Some(list_view(v@)),
            None => envelope_rows(j@) is None,
        },
{
    if !record(j, 3) {
        return None;
    }
    match (required_text(field_of(j, "schema", 0)), required_text(field_of(j, "fetched_at", 1))) {
        (Some(_), Some(_)) => match field_of(j, "rows", 2) {
            Some(l) => l.as_array(),
            None => None,
        },
        _ => None,
    }
}

proof fn lemma_envelope_back(schema: Seq<char>, fetched_at: Seq<char>, rows: Seq<JsonV>)
    requires
        forall|i: int| 0 <= i < rows.len() ==> json_plain(json_normal(#[trigger] rows[i]), 1),
    ensures
        envelope_rows(json_normal(envelope(schema, fetched_at, rows))) == Some(
            rows.map_values(|r: JsonV| json_normal(r)),
        ),
        json_plain(json_normal(envelope(schema, fetched_at, rows)), MAX_DEPTH as int),
{
    reveal_strlit("schema");
    reveal_strlit("fetched_at");
    reveal_strlit("rows");
    assert("schema"@.len() == 6 && "fetched_at"@.len() == 10 && "rows"@.len() == 4);
    let d = envelope(schema, fetched_at, rows)->Object_0;
    assert(distinct_keys(d));
    lemma_find_index(d, "schema"@, 0);
    lemma_find_index(d, "fetched_at"@, 1);
    lemma_find_index(d, "rows"@, 2);
    law_normal_keeps_members(d, "schema"@);
    law_normal_keeps_members(d, "fetched_at"@);
    law_normal_keeps_members(d, "rows"@);
    let items = json_normal(JsonV::List(rows))->List_0;
    assert(items =~= rows.map_values(|r: JsonV| json_normal(r)));
    assert forall|i: int| 0 <= i < items.len() implies json_plain(
        #[trigger] items[i],
        MAX_DEPTH - 2,
    ) by {
        assert(items[i] == json_normal(rows[i]));
        lemma_plain_deeper(items[i], 1, MAX_DEPTH - 2);
    }
    assert(json_plain(json_normal(JsonV::List(rows)), MAX_DEPTH - 1));
    lemma_object_plain(d, MAX_DEPTH as int);
}

pub open spec fn lead_documents(rows: Seq<LeadRowV>) -> Seq<JsonV> {
    rows.map_values(|r: LeadRowV| lead_document(r))
}

pub open spec fn contact_documents(rows: Seq<ContactRowV>) -> Seq<JsonV> {
    rows.map_values(|r: ContactRowV| contact_document(r))
}

/// The leads of documents, where every one reads.
pub open spec fn leads_of(items: Seq<JsonV>) -> Option<Seq<LeadRowV>>
    decreases items.len(),
{
    if items.len() == 0 {
        Some(Seq::empty())
    } else {
        match (leads_of(items.drop_last()), lead_of(items.last())) {
            (Some(before), Some(l)) => Some(before.push(l)),
            _ => None,
        }
    }
}

/// The contacts of documents, where every one reads.
pub open spec fn contacts_of(items: Seq<JsonV>) -> Option<Seq<ContactRowV>>
    decreases items.len(),
{
    if items.len() == 0 {
        Some(Seq::empty())
    } else {
        match (contacts_of(items.drop_last()), contact_of(items.last())) {
            (Some(before), Some(l)) => Some(before.push(l)),
            _ => None,
        }
    }
}

/// The leads that the text of a file holds.
pub open spec fn leads_in(raw: Seq<char>) -> Option<Seq<LeadRowV>> {
    match json_parsed(raw) {
        Ok(j) => match envelope_rows(j) {
            Some(items) => leads_of(items),
            None => None,
        },
        Err(_) => None,
    }
}

/// The contacts that the text of a file holds.
pub open spec fn contacts_in(raw: Seq<char>) -> Option<Seq<ContactRowV>> {
    match json_parsed(raw) {
        Ok(j) => match envelope_rows(j) {
            Some(items) => contacts_of(items),
            None => None,
        },
        Err(_) => None,
    }
}

proof fn lemma_leads_prefix(items: Seq<JsonV>, n: int)
    requires
        0 <= n <= items.len(),
        leads_of(items.take(n)) is None,
    ensures
        leads_of(items) is None,
    decreases items.len() - n,
{
    if n < items.len() {
        assert(items.take(n + 1).drop_last() =~= items.take(n));
        lemma_leads_prefix(items, n + 1);
    } else {
        assert(items.take(n) =~= items);
    }
}

proof fn lemma_contacts_prefix(items: Seq<JsonV>, n: int)
    requires
        0 <= n <= items.len(),
        contacts_of(items.take(n)) is None,
    ensures
        contacts_of(items) is None,
    decreases items.len() - n,
{
    if n < items.len() {
        assert(items.take(n + 1).drop_last() =~= items.take(n));
        lemma_contacts_prefix(items, n + 1);
    } else {
        assert(items.take(n) =~= items);
    }
}

/// Reads the text of a file of leads.
pub fn read_leads(raw: &str) -> (r: Option<Vec<LeadRow>>)
    ensures
        match r {
            Some(v) => leads_in(raw@) == Some(leads_view(v@)),
            None => leads_in(raw@) is None,
        },
{
    let j = match Json::parse(raw) {
        Ok(j) => j,
        Err(_) => {
            return None;
        },
    };
    let items = match rows_in(&j) {
        Some(v) => v,
        None => {
            return None;
        },
    };
    let ghost all = list_view(items@);
    let mut out: Vec<LeadRow> = Vec::new();
    let mut i: usize = 0;
    assert(leads_view(out@) =~= Seq::empty());
    assert(all.take(0) =~= Seq::empty());
    while i < items.len()
        invariant
            i <= items@.len(),
            all == list_view(items@),
            leads_in(raw@) == leads_of(all),
            leads_of(all.take(i as int)) == Some(leads_view(out@)),
        decreases items.len() - i,
    {
        assert(all.take(i + 1).drop_last() =~= all.take(i as int));
        assert(all[i as int] == items@[i as int]@);
        match read_lead(&items[i]) {
            Some(l) => {
                assert(leads_view(out@.push(l)) =~= leads_view(out@).push(l@));
                out.push(l);
            },
            None => {
                proof {
                    lemma_leads_prefix(all, i + 1);
                }
                return None;
            },
        }
        i += 1;
    }
    assert(all.take(i as int) =~= all);
    Some(out)
}

/// Reads the text of a file of contacts.
pub fn read_contacts(raw: &str) -> (r: Option<Vec<ContactRow>>)
    ensures
        match r {
            Some(v) => contacts_in(raw@) == Some(contacts_view(v@)),
            None => contacts_in(raw@) is None,
        },
{
    let j = match Json::parse(raw) {
        Ok(j) => j,
        Err(_) => {
            return None;
        },
    };
    let items = match rows_in(&j) {
        Some(v) => v,
        None => {
            return None;
        },
    };
    let ghost all = list_view(items@);
    let mut out: Vec<ContactRow> = Vec::new();
    let mut i: usize = 0;
    assert(contacts_view(out@) =~= Seq::empty());
    assert(all.take(0) =~= Seq::empty());
    while i < items.len()
        invariant
            i <= items@.len(),
            all == list_view(items@),
            contacts_in(raw@) == contacts_of(all),
            contacts_of(all.take(i as int)) == Some(contacts_view(out@)),
        decreases items.len() - i,
    {
        assert(all.take(i + 1).drop_last() =~= all.take(i as int));
        assert(all[i as int] == items@[i as int]@);
        match read_contact(&items[i]) {
            Some(l) => {
                assert(contacts_view(out@.push(l)) =~= contacts_view(out@).push(l@));
                out.push(l);
            },
            None => {
                proof {
                    lemma_contacts_prefix(all, i + 1);
                }
                return None;
            },
        }
        i += 1;
    }
    assert(all.take(i as int) =~= all);
    Some(out)
}

proof fn lemma_leads_back(rows: Seq<LeadRowV>, items: Seq<JsonV>)
    requires
        items.len() == rows.len(),
        forall|i: int| 0 <= i < rows.len() ==> lead_of(#[trigger] items[i]) == Some(rows[i]),
    ensures
        leads_of(items) == Some(rows),
    decreases rows.len(),
{
    if rows.len() > 0 {
        assert(forall|i: int|
            0 <= i < rows.len() - 1 ==> items.drop_last()[i] == #[trigger] items[i]);
        lemma_leads_back(rows.drop_last(), items.drop_last());
        assert(items[items.len() - 1] == items.last());
        assert(rows.drop_last().push(rows.last()) =~= rows);
    } else {
        assert(rows =~= Seq::empty());
    }
}

proof fn lemma_contacts_back(rows: Seq<ContactRowV>, items: Seq<JsonV>)
    requires
        items.len() == rows.len(),
        forall|i: int| 0 <= i < rows.len() ==> contact_of(#[trigger] items[i]) == Some(rows[i]),
    ensures
        contacts_of(items) == Some(rows),
    decreases rows.len(),
{
    if rows.len() > 0 {
        assert(forall|i: int|
            0 <= i < rows.len() - 1 ==> items.drop_last()[i] == #[trigger] items[i]);
        lemma_contacts_back(rows.drop_last(), items.drop_last());
        assert(items[items.len() - 1] == items.last());
        assert(rows.drop_last().push(rows.last()) =~= rows);
    } else {
        assert(rows =~= Seq::empty());
    }
}

/// The text of a file of leads. It is read back.
pub fn leads_text(f: &LeadsFile) -> (r: String)
    ensures
        r@ == json_pretty(
            json_normal(
                envelope(f.schema@, f.fetched_at@, lead_documents(leads_view(f.rows@))),
            ),
        ),
        leads_in(r@) == Some(leads_view(f.rows@)),
{
    let ghost all = lead_documents(leads_view(f.rows@));
    let mut out: Vec<Json> = Vec::new();
    let mut i: usize = 0;
    assert(list_view(out@) =~= all.take(0));
    while i < f.rows.len()
        invariant
            i <= f.rows@.len(),
            all == lead_documents(leads_view(f.rows@)),
            list_view(out@) == all.take(i as int),
        decreases f.rows.len() - i,
    {
        let t = lead_json(&f.rows[i]);
        proof {
            assert(leads_view(f.rows@)[i as int] == f.rows@[i as int]@);
            lemma_list_push(out@, t);
            assert(all.take(i + 1) =~= all.take(i as int).push(t@));
        }
        out.push(t);
        i += 1;
    }
    assert(all.take(i as int) =~= all);
    proof {
        let rows = leads_view(f.rows@);
        assert forall|k: int| 0 <= k < all.len() implies json_plain(
            json_normal(#[trigger] all[k]),
            1,
        ) by {
            lemma_lead_back(rows[k]);
        }
        lemma_envelope_back(f.schema@, f.fetched_at@, all);
        let items = all.map_values(|r: JsonV| json_normal(r));
        assert forall|k: int| 0 <= k < rows.len() implies lead_of(#[trigger] items[k]) == Some(
            rows[k],
        ) by {
            lemma_lead_back(rows[k]);
        }
        lemma_leads_back(rows, items);
    }
    object3(
        "schema",
        text(f.schema.as_str()),
        "fetched_at",
        text(f.fetched_at.as_str()),
        "rows",
        list(out),
    ).to_pretty()
}

/// The text of a file of contacts. It is read back.
pub fn contacts_text(f: &CrmContactsFile) -> (r: String)
    ensures
        r@ == json_pretty(
            json_normal(
                envelope(f.schema@, f.fetched_at@, contact_documents(contacts_view(f.rows@))),
            ),
        ),
        contacts_in(r@) == Some(contacts_view(f.rows@)),
{
    let ghost all = contact_documents(contacts_view(f.rows@));
    let mut out: Vec<Json> = Vec::new();
    let mut i: usize = 0;
    assert(list_view(out@) =~= all.take(0));
    while i < f.rows.len()
        invariant
            i <= f.rows@.len(),
            all == contact_documents(contacts_view(f.rows@)),
            list_view(out@) == all.take(i as int),
        decreases f.rows.len() - i,
    {
        let t = contact_json(&f.rows[i]);
        proof {
            assert(contacts_view(f.rows@)[i as int] == f.rows@[i as int]@);
            lemma_list_push(out@, t);
            assert(all.take(i + 1) =~= all.take(i as int).push(t@));
        }
        out.push(t);
        i += 1;
    }
    assert(all.take(i as int) =~= all);
    proof {
        let rows = contacts_view(f.rows@);
        assert forall|k: int| 0 <= k < all.len() implies json_plain(
            json_normal(#[trigger] all[k]),
            1,
        ) by {
            lemma_contact_back(rows[k]);
        }
        lemma_envelope_back(f.schema@, f.fetched_at@, all);
        let items = all.map_values(|r: JsonV| json_normal(r));
        assert forall|k: int| 0 <= k < rows.len() implies contact_of(#[trigger] items[k]) == Some(
            rows[k],
        ) by {
            lemma_contact_back(rows[k]);
        }
        lemma_contacts_back(rows, items);
    }
    object3(
        "schema",
        text(f.schema.as_str()),
        "fetched_at",
        text(f.fetched_at.as_str()),
        "rows",
        list(out),
    ).to_pretty()
}

// The report

/// The days that a report covers, both of them among these.
#[derive(Debug, Clone)]
pub struct ReportWindow {
    pub since: String,
    pub until: String,
}

/// What a report was made of.
#[derive(Debug, Clone)]
pub struct ReportSource {
    pub snapshot_date: String,
    pub crm_present: bool,
    pub creatives_schema: Option<String>,
}

/// The counts of the funnel: leads of the ads, leads in the CRM and their milestones.
#[derive(Debug, Clone, Copy, PartialEq, Eq, Structural)]
pub struct FunnelCounts {
    pub m_leads: u64,
    pub l_leads: u64,
    pub qualified: u64,
    pub visit: u64,
    pub booking: u64,
}

/// The leads of the ads by what became of them: the five kinds add up to the total.
#[derive(Debug, Clone, Copy, PartialEq, Eq, Structural)]
pub struct Segmentation {
    pub total: u64,
    pub captured: u64,
    pub reinquiry: u64,
    pub duplicate: u64,
    pub invalid: u64,
    pub uncaptured: u64,
}

/// How a group of ads was found to share a creative.
#[derive(Debug, Clone, Copy, PartialEq, Eq, Structural)]
pub enum GroupKind {
    Family,
    VideoName,
    VideoId,
    ImageHash,
    ImageBasename,
    AdId,
}

#[derive(Debug, Clone, Copy, PartialEq, Eq, Structural)]
pub enum StatusCode {
    Live,
    Learn,
    Stop,
}

/// The status of a card and how it is shown.
#[derive(Debug, Clone)]
pub struct CardStatus {
    pub code: StatusCode,
    pub label: String,
}

/// A cached image and its path.
#[derive(Debug, Clone)]
pub struct ImageRef {
    pub sha256: String,
    pub path: String,
}

/// One step of the funnel.
#[derive(Debug, Clone)]
pub struct FunnelStage {
    pub stage: String,
    pub count: u64,
}

#[derive(Debug, Clone, Copy, PartialEq, Eq, Structural)]
pub struct TargetingCrm {
    pub l_leads: u64,
    pub qualified: u64,
    pub visit: u64,
    pub booking: u64,
}

/// One day of a card's trend.
#[derive(Debug, Clone)]
pub struct TrendBucket {
    pub date: String,
    pub impressions: u64,
    pub clicks: u64,
    pub m_leads: u64,
    pub l_leads: u64,
    pub qualified: u64,
    pub visit: u64,
    pub booking: u64,
}

/// What was delivered. Money is not summed up here: `spend` has, ad by ad, the rows of the
/// snapshot of which it is the sum.
#[derive(Debug, Clone)]
pub struct Delivery {
    pub spend: Vec<Vec<usize>>,
    pub impressions: u64,
    pub reach: u64,
    pub clicks: u64,
    pub m_leads: u64,
}

/// The part of a card that one targeting brought.
#[derive(Debug, Clone)]
pub struct TargetingBreakdown {
    pub targeting: String,
    pub delivery: Delivery,
    pub crm: TargetingCrm,
}

/// One creative: the ads that show it and what they brought.
#[derive(Debug, Clone)]
pub struct CreativeCard {
    pub group_key: String,
    pub group_kind: GroupKind,
    pub display_name: String,
    pub ad_ids: Vec<String>,
    pub campaigns: Vec<String>,
    pub is_video: bool,
    pub status: CardStatus,
    pub created: Option<String>,
    pub permalink: Option<String>,
    pub image: Option<ImageRef>,
    pub delivery: Delivery,
    pub funnel: Vec<FunnelStage>,
    pub targetings: Vec<TargetingBreakdown>,
    pub trend: Vec<TrendBucket>,
    pub segmentation: Option<Segmentation>,
}

/// The sums of a product or of all of them.
#[derive(Debug, Clone, Copy, PartialEq, Eq, Structural)]
pub struct Kpis {
    pub impressions: u64,
    pub clicks: u64,
    pub funnel: FunnelCounts,
    /// Tickets of the days that no ad brought.
    pub unattributed_l_leads: u64,
}

/// The creatives of a product.
#[derive(Debug, Clone)]
pub struct ProductSection {
    pub product: String,
    pub creatives: Vec<CreativeCard>,
}

/// The report on the creatives of a snapshot.
#[derive(Debug, Clone)]
pub struct CreativeReport {
    pub schema: String,
    pub workspace_id: String,
    pub report_date: String,
    pub window: ReportWindow,
    pub generated_at: String,
    pub source: ReportSource,
    pub unattributed_l_leads: u64,
    pub products: Vec<ProductSection>,
}

/// What the ad sets of a targeting say of whom they aim at.
#[derive(Debug, Clone)]
pub struct TargetingSpecs {
    pub geo: Option<String>,
    pub age: Option<String>,
    pub genders: Option<String>,
    pub learning: Option<String>,
    pub optimization_goal: Option<String>,
}

#[verifier::ext_equal]
pub struct TargetingSpecsV {
    pub geo: Option<Seq<char>>,
    pub age: Option<Seq<char>>,
    pub genders: Option<Seq<char>>,
    pub learning: Option<Seq<char>>,
    pub optimization_goal: Option<Seq<char>>,
}

impl View for TargetingSpecs {
    type V = TargetingSpecsV;

    open spec fn view(&self) -> TargetingSpecsV {
        TargetingSpecsV {
            geo: opt_view(self.geo),
            age: opt_view(self.age),
            genders: opt_view(self.genders),
            learning: opt_view(self.learning),
            optimization_goal: opt_view(self.optimization_goal),
        }
    }
}

/// What to do with a targeting, and why.
#[derive(Debug, Clone)]
pub struct Verdict {
    pub code: String,
    pub label: String,
    pub detail: String,
}

#[verifier::ext_equal]
pub struct VerdictV {
    pub code: Seq<char>,
    pub label: Seq<char>,
    pub detail: Seq<char>,
}

impl View for Verdict {
    type V = VerdictV;

    open spec fn view(&self) -> VerdictV {
        VerdictV { code: self.code@, label: self.label@, detail: self.detail@ }
    }
}

pub open spec fn verdicts_view(v: Seq<Verdict>) -> Seq<VerdictV> {
    v.map_values(|x: Verdict| x@)
}

/// What a targeting brought in seven days. `spend` has the rows of which it is the sum.
#[derive(Debug, Clone)]
pub struct SevenDay {
    pub spend: Vec<usize>,
    pub impressions: u64,
    pub clicks: u64,
    pub m_leads: u64,
    pub l_leads: u64,
    pub qualified: u64,
}

/// What a targeting of a product brought, in the days of the report and in seven days.
#[derive(Debug, Clone)]
pub struct TargetingReport {
    pub targeting: String,
    pub archetype: String,
    pub adset_ids: Vec<String>,
    pub window: Delivery,
    pub window_crm: TargetingCrm,
    pub window_7d: SevenDay,
    pub recent_l_72h: u64,
}

/// A line of the brief of a report: `win`, `watch` or `info`, and what it says.
#[derive(Debug, Clone)]
pub struct ExecLine {
    pub tone: String,
    pub text: String,
}

#[verifier::ext_equal]
pub struct ExecLineV {
    pub tone: Seq<char>,
    pub text: Seq<char>,
}

impl View for ExecLine {
    type V = ExecLineV;

    open spec fn view(&self) -> ExecLineV {
        ExecLineV { tone: self.tone@, text: self.text@ }
    }
}

pub open spec fn exec_view(v: Seq<ExecLine>) -> Seq<ExecLineV> {
    v.map_values(|x: ExecLine| x@)
}

} // verus!
