//! A snapshot: what the ads and the CRM said on one day.

use crate::dates::{day_of, parse_day};
use crate::error::Error;
use crate::json::{
    json_normal, json_parsed, lemma_list_push, lemma_list_view, list, list_fault, list_in,
    list_view, object, opt_json, Json, JsonV,
};
use crate::records::{
    elements_fault, field, field_of, fields_view, find_elements_fault, find_members_fault,
    find_record_fault, is_record, long_fault, members_fault, record, record_fault, said, text_field,
    text_or_missing, FieldKind,
};
use crate::schema::{creatives_of, parse_creatives, CreativesFile, CreativesFileV};
use crate::sets::{sort_set, sorted_set};
use crate::strs::{
    cat2, cat3, chars_of, decimal, parse_u64, parsed_nat, push_text, trim, trimmed, views,
};
use crate::text::{byte_len, bytes_up_to};
use vstd::prelude::*;

pub mod laws;

verus! {

/// One ad on one day, as the ad platform reports it: the numbers are texts.
#[derive(Debug)]
pub struct AdsDailyRow {
    pub campaign_id: String,
    pub campaign_name: String,
    pub adset_id: String,
    pub adset_name: String,
    pub ad_id: String,
    pub ad_name: String,
    pub spend: String,
    pub impressions: String,
    pub reach: String,
    pub frequency: String,
    pub clicks: String,
    pub inline_link_clicks: String,
    pub inline_link_click_ctr: String,
    pub cost_per_inline_link_click: String,
    pub cpc: String,
    pub ctr: String,
    pub cpm: String,
    pub actions: Vec<Json>,
    pub date_start: String,
    pub date_stop: String,
    /// The product of the workspace to which the ad belongs.
    pub _product: String,
}

#[verifier::ext_equal]
pub struct AdsDailyRowV {
    pub campaign_id: Seq<char>,
    pub campaign_name: Seq<char>,
    pub adset_id: Seq<char>,
    pub adset_name: Seq<char>,
    pub ad_id: Seq<char>,
    pub ad_name: Seq<char>,
    pub spend: Seq<char>,
    pub impressions: Seq<char>,
    pub reach: Seq<char>,
    pub frequency: Seq<char>,
    pub clicks: Seq<char>,
    pub inline_link_clicks: Seq<char>,
    pub inline_link_click_ctr: Seq<char>,
    pub cost_per_inline_link_click: Seq<char>,
    pub cpc: Seq<char>,
    pub ctr: Seq<char>,
    pub cpm: Seq<char>,
    pub actions: Seq<JsonV>,
    pub date_start: Seq<char>,
    pub date_stop: Seq<char>,
    pub _product: Seq<char>,
}

impl View for AdsDailyRow {
    type V = AdsDailyRowV;

    open spec fn view(&self) -> AdsDailyRowV {
        AdsDailyRowV {
            campaign_id: self.campaign_id@,
            campaign_name: self.campaign_name@,
            adset_id: self.adset_id@,
            adset_name: self.adset_name@,
            ad_id: self.ad_id@,
            ad_name: self.ad_name@,
            spend: self.spend@,
            impressions: self.impressions@,
            reach: self.reach@,
            frequency: self.frequency@,
            clicks: self.clicks@,
            inline_link_clicks: self.inline_link_clicks@,
            inline_link_click_ctr: self.inline_link_click_ctr@,
            cost_per_inline_link_click: self.cost_per_inline_link_click@,
            cpc: self.cpc@,
            ctr: self.ctr@,
            cpm: self.cpm@,
            actions: list_view(self.actions@),
            date_start: self.date_start@,
            date_stop: self.date_stop@,
            _product: self._product@,
        }
    }
}

pub open spec fn ads_view(v: Seq<AdsDailyRow>) -> Seq<AdsDailyRowV> {
    v.map_values(|r: AdsDailyRow| r@)
}

/// The number that a text denotes, white space aside; 0 where it denotes none.
pub open spec fn count_in(s: Seq<char>) -> u64 {
    match parsed_nat(trimmed(s), u64::MAX as nat) {
        Some(n) => n as u64,
        None => 0,
    }
}

pub(crate) fn count_of(s: &str) -> (r: u64)
    ensures
        r == count_in(s@),
{
    match parse_u64(trim(s).as_str()) {
        Some(n) => n,
        None => 0,
    }
}

impl AdsDailyRow {
    pub fn impressions_num(&self) -> (r: u64)
        ensures
            r == count_in(self.impressions@),
    {
        count_of(self.impressions.as_str())
    }

    pub fn clicks_num(&self) -> (r: u64)
        ensures
            r == count_in(self.inline_link_clicks@),
    {
        count_of(self.inline_link_clicks.as_str())
    }
}

// Reading rows

/// A list that may be missing, and is empty then.
pub open spec fn actions_in(o: Option<JsonV>) -> Option<Seq<JsonV>> {
    match o {
        None => Some(Seq::empty()),
        Some(_) => list_in(o),
    }
}

/// Whether a document reads as the row of an ad: what is there is a text, and the actions a list.
pub open spec fn ads_row_reads(j: JsonV) -> bool {
    &&& is_record(j, 21)
    &&& text_or_missing(field(j, "campaign_id"@, 0)) is Some
    &&& text_or_missing(field(j, "campaign_name"@, 1)) is Some
    &&& text_or_missing(field(j, "adset_id"@, 2)) is Some
    &&& text_or_missing(field(j, "adset_name"@, 3)) is Some
    &&& text_or_missing(field(j, "ad_id"@, 4)) is Some
    &&& text_or_missing(field(j, "ad_name"@, 5)) is Some
    &&& text_or_missing(field(j, "spend"@, 6)) is Some
    &&& text_or_missing(field(j, "impressions"@, 7)) is Some
    &&& text_or_missing(field(j, "reach"@, 8)) is Some
    &&& text_or_missing(field(j, "frequency"@, 9)) is Some
    &&& text_or_missing(field(j, "clicks"@, 10)) is Some
    &&& text_or_missing(field(j, "inline_link_clicks"@, 11)) is Some
    &&& text_or_missing(field(j, "inline_link_click_ctr"@, 12)) is Some
    &&& text_or_missing(field(j, "cost_per_inline_link_click"@, 13)) is Some
    &&& text_or_missing(field(j, "cpc"@, 14)) is Some
    &&& text_or_missing(field(j, "ctr"@, 15)) is Some
    &&& text_or_missing(field(j, "cpm"@, 16)) is Some
    &&& text_or_missing(field(j, "date_start"@, 18)) is Some
    &&& text_or_missing(field(j, "date_stop"@, 19)) is Some
    &&& text_or_missing(field(j, "_product"@, 20)) is Some
    &&& actions_in(field(j, "actions"@, 17)) is Some
}

/// What the row of an ad says, where it reads.
pub open spec fn ads_row_read(j: JsonV) -> AdsDailyRowV {
    AdsDailyRowV {
        campaign_id: text_or_missing(field(j, "campaign_id"@, 0))->0,
        campaign_name: text_or_missing(field(j, "campaign_name"@, 1))->0,
        adset_id: text_or_missing(field(j, "adset_id"@, 2))->0,
        adset_name: text_or_missing(field(j, "adset_name"@, 3))->0,
        ad_id: text_or_missing(field(j, "ad_id"@, 4))->0,
        ad_name: text_or_missing(field(j, "ad_name"@, 5))->0,
        spend: text_or_missing(field(j, "spend"@, 6))->0,
        impressions: text_or_missing(field(j, "impressions"@, 7))->0,
        reach: text_or_missing(field(j, "reach"@, 8))->0,
        frequency: text_or_missing(field(j, "frequency"@, 9))->0,
        clicks: text_or_missing(field(j, "clicks"@, 10))->0,
        inline_link_clicks: text_or_missing(field(j, "inline_link_clicks"@, 11))->0,
        inline_link_click_ctr: text_or_missing(field(j, "inline_link_click_ctr"@, 12))->0,
        cost_per_inline_link_click: text_or_missing(field(j, "cost_per_inline_link_click"@, 13))->0,
        cpc: text_or_missing(field(j, "cpc"@, 14))->0,
        ctr: text_or_missing(field(j, "ctr"@, 15))->0,
        cpm: text_or_missing(field(j, "cpm"@, 16))->0,
        actions: actions_in(field(j, "actions"@, 17))->0,
        date_start: text_or_missing(field(j, "date_start"@, 18))->0,
        date_stop: text_or_missing(field(j, "date_stop"@, 19))->0,
        _product: text_or_missing(field(j, "_product"@, 20))->0,
    }
}

fn read_actions(o: Option<&Json>) -> (r: Option<Vec<Json>>)
    ensures
        match r {
            Some(v) => actions_in(opt_json(o)) == Some(list_view(v@)),
            None => actions_in(opt_json(o)) is None,
        },
{
    let mut out: Vec<Json> = Vec::new();
    assert(list_view(out@) =~= Seq::empty());
    match o {
        None => Some(out),
        Some(j) => match j.as_array() {
            None => None,
            Some(items) => {
                let ghost all = list_view(items@);
                let mut i: usize = 0;
                assert(list_view(out@) =~= all.take(0));
                while i < items.len()
                    invariant
                        i <= items@.len(),
                        all == list_view(items@),
                        list_view(out@) == all.take(i as int),
                    decreases items.len() - i,
                {
                    let c = items[i].copy();
                    proof {
                        assert(all[i as int] == items@[i as int]@);
                        lemma_list_push(out@, c);
                        assert(all.take(i + 1) =~= all.take(i as int).push(c@));
                    }
                    out.push(c);
                    i += 1;
                }
                assert(all.take(i as int) =~= all);
                Some(out)
            },
        },
    }
}

/// Reads the row of an ad.
pub fn read_ads_row(j: &Json) -> (r: Option<AdsDailyRow>)
    ensures
        match r {
            Some(row) => ads_row_reads(j@) && row@ == ads_row_read(j@),
            None => !ads_row_reads(j@),
        },
{
    if !record(j, 21) {
        return None;
    }
    let ids = match (
        text_field(field_of(j, "campaign_id", 0)),
        text_field(field_of(j, "campaign_name", 1)),
        text_field(field_of(j, "adset_id", 2)),
        text_field(field_of(j, "adset_name", 3)),
        text_field(field_of(j, "ad_id", 4)),
        text_field(field_of(j, "ad_name", 5)),
    ) {
        (Some(a), Some(b), Some(c), Some(d), Some(e), Some(f)) => (a, b, c, d, e, f),
        _ => {
            return None;
        },
    };
    let counts = match (
        text_field(field_of(j, "spend", 6)),
        text_field(field_of(j, "impressions", 7)),
        text_field(field_of(j, "reach", 8)),
        text_field(field_of(j, "frequency", 9)),
        text_field(field_of(j, "clicks", 10)),
        text_field(field_of(j, "inline_link_clicks", 11)),
    ) {
        (Some(a), Some(b), Some(c), Some(d), Some(e), Some(f)) => (a, b, c, d, e, f),
        _ => {
            return None;
        },
    };
    let rates = match (
        text_field(field_of(j, "inline_link_click_ctr", 12)),
        text_field(field_of(j, "cost_per_inline_link_click", 13)),
        text_field(field_of(j, "cpc", 14)),
        text_field(field_of(j, "ctr", 15)),
        text_field(field_of(j, "cpm", 16)),
    ) {
        (Some(a), Some(b), Some(c), Some(d), Some(e)) => (a, b, c, d, e),
        _ => {
            return None;
        },
    };
    let days = match (
        text_field(field_of(j, "date_start", 18)),
        text_field(field_of(j, "date_stop", 19)),
        text_field(field_of(j, "_product", 20)),
    ) {
        (Some(a), Some(b), Some(c)) => (a, b, c),
        _ => {
            return None;
        },
    };
    let actions = match read_actions(field_of(j, "actions", 17)) {
        Some(a) => a,
        None => {
            return None;
        },
    };
    Some(
        AdsDailyRow {
            campaign_id: ids.0,
            campaign_name: ids.1,
            adset_id: ids.2,
            adset_name: ids.3,
            ad_id: ids.4,
            ad_name: ids.5,
            spend: counts.0,
            impressions: counts.1,
            reach: counts.2,
            frequency: counts.3,
            clicks: counts.4,
            inline_link_clicks: counts.5,
            inline_link_click_ctr: rates.0,
            cost_per_inline_link_click: rates.1,
            cpc: rates.2,
            ctr: rates.3,
            cpm: rates.4,
            actions: actions,
            date_start: days.0,
            date_stop: days.1,
            _product: days.2,
        },
    )
}

/// The rows of a list, where every one reads.
pub open spec fn ads_rows(items: Seq<JsonV>) -> Option<Seq<AdsDailyRowV>> {
    if forall|i: int| 0 <= i < items.len() ==> ads_row_reads(#[trigger] items[i]) {
        Some(items.map_values(|j: JsonV| ads_row_read(j)))
    } else {
        None
    }
}

/// The rows that a document holds.
pub open spec fn ads_of_json(j: JsonV) -> Option<Seq<AdsDailyRowV>> {
    match j {
        JsonV::List(items) => ads_rows(items),
        _ => None,
    }
}

/// Reads the rows of the ads.
pub fn read_ads_daily(j: &Json) -> (r: Option<Vec<AdsDailyRow>>)
    ensures
        match r {
            Some(v) => ads_of_json(j@) == Some(ads_view(v@)),
            None => ads_of_json(j@) is None,
        },
{
    proof {
        lemma_list_view(*j);
    }
    match j {
        Json::List(items) => {
            let ghost all = list_view(items@);
            let mut out: Vec<AdsDailyRow> = Vec::new();
            let mut i: usize = 0;
            while i < items.len()
                invariant
                    i <= items@.len(),
                    all == list_view(items@),
                    j@ == JsonV::List(all),
                    forall|k: int| 0 <= k < i ==> ads_row_reads(#[trigger] all[k]),
                    ads_view(out@) == all.take(i as int).map_values(|j: JsonV| ads_row_read(j)),
                decreases items.len() - i,
            {
                assert(all[i as int] == items@[i as int]@);
                match read_ads_row(&items[i]) {
                    Some(row) => {
                        assert(ads_view(out@.push(row)) =~= ads_view(out@).push(row@));
                        assert(all.take(i + 1).map_values(|j: JsonV| ads_row_read(j))
                            =~= all.take(i as int).map_values(|j: JsonV| ads_row_read(j)).push(
                            row@,
                        ));
                        out.push(row);
                    },
                    None => {
                        assert(!ads_row_reads(all[i as int]));
                        return None;
                    },
                }
                i += 1;
            }
            assert(all.take(i as int) =~= all);
            Some(out)
        },
        _ => None,
    }
}

// Why rows of ads do not read

/// The fields of the row of an ad, in their order.
pub open spec fn ads_fields() -> Seq<(Seq<char>, FieldKind)> {
    seq![
        ("campaign_id"@, FieldKind::Text),
        ("campaign_name"@, FieldKind::Text),
        ("adset_id"@, FieldKind::Text),
        ("adset_name"@, FieldKind::Text),
        ("ad_id"@, FieldKind::Text),
        ("ad_name"@, FieldKind::Text),
        ("spend"@, FieldKind::Text),
        ("impressions"@, FieldKind::Text),
        ("reach"@, FieldKind::Text),
        ("frequency"@, FieldKind::Text),
        ("clicks"@, FieldKind::Text),
        ("inline_link_clicks"@, FieldKind::Text),
        ("inline_link_click_ctr"@, FieldKind::Text),
        ("cost_per_inline_link_click"@, FieldKind::Text),
        ("cpc"@, FieldKind::Text),
        ("ctr"@, FieldKind::Text),
        ("cpm"@, FieldKind::Text),
        ("actions"@, FieldKind::List),
        ("date_start"@, FieldKind::Text),
        ("date_stop"@, FieldKind::Text),
        ("_product"@, FieldKind::Text),
    ]
}

fn list_ads_fields() -> (r: Vec<(&'static str, FieldKind)>)
    ensures
        fields_view(r@) == ads_fields(),
{
    let r = vec![
        ("campaign_id", FieldKind::Text),
        ("campaign_name", FieldKind::Text),
        ("adset_id", FieldKind::Text),
        ("adset_name", FieldKind::Text),
        ("ad_id", FieldKind::Text),
        ("ad_name", FieldKind::Text),
        ("spend", FieldKind::Text),
        ("impressions", FieldKind::Text),
        ("reach", FieldKind::Text),
        ("frequency", FieldKind::Text),
        ("clicks", FieldKind::Text),
        ("inline_link_clicks", FieldKind::Text),
        ("inline_link_click_ctr", FieldKind::Text),
        ("cost_per_inline_link_click", FieldKind::Text),
        ("cpc", FieldKind::Text),
        ("ctr", FieldKind::Text),
        ("cpm", FieldKind::Text),
        ("actions", FieldKind::List),
        ("date_start", FieldKind::Text),
        ("date_stop", FieldKind::Text),
        ("_product", FieldKind::Text),
    ];
    assert(fields_view(r@) =~= ads_fields());
    r
}

/// What is said against a document that is no row of an ad.
pub open spec fn ads_row_fault(j: JsonV) -> Seq<char> {
    match j {
        JsonV::Object(pairs) => said(members_fault(ads_fields(), pairs)),
        JsonV::List(items) => match elements_fault(ads_fields(), items, 0) {
            Some(m) => m,
            None => long_fault(items.len()),
        },
        _ => record_fault(j, "struct AdsDailyRow"@),
    }
}

/// What is said against the first of documents that is no row of an ad.
pub open spec fn ads_rows_fault(items: Seq<JsonV>) -> Seq<char>
    decreases items.len(),
{
    if items.len() == 0 {
        Seq::empty()
    } else if ads_row_reads(items[0]) {
        ads_rows_fault(items.drop_first())
    } else {
        ads_row_fault(items[0])
    }
}

/// What is said against a document that does not hold rows of ads.
pub open spec fn ads_fault(j: JsonV) -> Seq<char> {
    match j {
        JsonV::List(items) => ads_rows_fault(items),
        _ => said(list_fault(json_normal(j))),
    }
}

fn find_row_fault(j: &Json) -> (r: String)
    ensures
        r@ == ads_row_fault(j@),
{
    proof {
        lemma_list_view(*j);
    }
    match j {
        Json::Object(pairs) => match find_members_fault(&list_ads_fields(), pairs) {
            Some(m) => m,
            None => {
                let r = String::new();
                assert(r@ =~= Seq::empty());
                r
            },
        },
        Json::List(items) => match find_elements_fault(&list_ads_fields(), items) {
            Some(m) => m,
            None => {
                assert(list_view(items@).len() == items@.len());
                cat3(
                    "invalid length ",
                    decimal(items.len() as u64).as_str(),
                    ", expected fewer elements in array",
                )
            },
        },
        _ => find_record_fault(j, "struct AdsDailyRow"),
    }
}

fn find_ads_fault(j: &Json) -> (r: String)
    ensures
        r@ == ads_fault(j@),
{
    proof {
        lemma_list_view(*j);
    }
    match j {
        Json::List(items) => {
            let ghost all = list_view(items@);
            let mut i: usize = 0;
            assert(all.skip(0) =~= all);
            while i < items.len()
                invariant
                    i <= items@.len(),
                    all == list_view(items@),
                    j@ == JsonV::List(all),
                    ads_rows_fault(all) == ads_rows_fault(all.skip(i as int)),
                decreases items.len() - i,
            {
                assert(all.skip(i as int).drop_first() =~= all.skip(i + 1));
                assert(all[i as int] == items@[i as int]@);
                if read_ads_row(&items[i]).is_none() {
                    return find_row_fault(&items[i]);
                }
                i += 1;
            }
            let r = String::new();
            assert(r@ =~= Seq::empty());
            r
        },
        _ => match j.list_fault() {
            Some(m) => m,
            None => {
                let r = String::new();
                assert(r@ =~= Seq::empty());
                r
            },
        },
    }
}

// Snapshots

/// What the files of a snapshot hold.
#[derive(Debug)]
pub struct Snapshot {
    pub path: String,
    pub date: String,
    pub ads_daily: Vec<AdsDailyRow>,
    pub adsets: Json,
    pub creatives: Option<CreativesFile>,
    pub crm: Json,
    pub regions: Json,
    pub changes: Json,
    pub campaigns: Json,
}

#[verifier::ext_equal]
pub struct SnapshotV {
    pub path: Seq<char>,
    pub date: Seq<char>,
    pub ads_daily: Seq<AdsDailyRowV>,
    pub adsets: JsonV,
    pub creatives: Option<CreativesFileV>,
    pub crm: JsonV,
    pub regions: JsonV,
    pub changes: JsonV,
    pub campaigns: JsonV,
}

pub open spec fn opt_creatives(o: Option<CreativesFile>) -> Option<CreativesFileV> {
    match o {
        Some(f) => Some(f@),
        None => None,
    }
}

impl View for Snapshot {
    type V = SnapshotV;

    open spec fn view(&self) -> SnapshotV {
        SnapshotV {
            path: self.path@,
            date: self.date@,
            ads_daily: ads_view(self.ads_daily@),
            adsets: self.adsets@,
            creatives: opt_creatives(self.creatives),
            crm: self.crm@,
            regions: self.regions@,
            changes: self.changes@,
            campaigns: self.campaigns@,
        }
    }
}

/// A snapshot of which no file was read yet.
pub open spec fn bare_snapshot(path: Seq<char>, date: Seq<char>) -> SnapshotV {
    SnapshotV {
        path,
        date,
        ads_daily: Seq::empty(),
        adsets: JsonV::List(Seq::empty()),
        creatives: None,
        crm: JsonV::Object(Seq::empty()),
        regions: JsonV::List(Seq::empty()),
        changes: JsonV::List(Seq::empty()),
        campaigns: JsonV::List(Seq::empty()),
    }
}

/// Starts a snapshot; `name` is the name of its directory, where it has one. It must be a date.
pub fn start(path: &str, name: &Option<String>) -> (r: Result<Snapshot, Error>)
    ensures
        match (r, *name) {
            (Ok(s), Some(n)) => day_of(n@) is Some && s@ == bare_snapshot(path@, n@),
            (Ok(_), None) => false,
            (Err(e), Some(n)) => day_of(n@) is None && (e matches Error::Config(m) && m@
                == "snapshot dir name is not a YYYY-MM-DD date: "@ + path@),
            (Err(e), None) => (e matches Error::Config(m) && m@ == "bad snapshot path: "@ + path@),
        },
{
    let date = match name {
        Some(n) => n.clone(),
        None => {
            return Err(Error::Config(cat2("bad snapshot path: ", path)));
        },
    };
    if parse_day(date.as_str()).is_none() {
        return Err(Error::Config(cat2("snapshot dir name is not a YYYY-MM-DD date: ", path)));
    }
    let s = Snapshot {
        path: path.to_owned(),
        date,
        ads_daily: Vec::new(),
        adsets: list(Vec::new()),
        creatives: None,
        crm: object(Vec::new()),
        regions: list(Vec::new()),
        changes: list(Vec::new()),
        campaigns: list(Vec::new()),
    };
    proof {
        assert(s@.ads_daily =~= Seq::empty());
        assert(s@.adsets->List_0 =~= Seq::empty());
        assert(s@.crm->Object_0 =~= Seq::empty());
        assert(s@.regions->List_0 =~= Seq::empty());
        assert(s@.changes->List_0 =~= Seq::empty());
        assert(s@.campaigns->List_0 =~= Seq::empty());
    }
    Ok(s)
}

/// The files of a snapshot.
#[derive(Debug, Clone, Copy, PartialEq, Eq, Structural)]
pub enum SnapshotFile {
    AdsDaily,
    Adsets,
    Creatives,
    Crm,
    Regions,
    Changes,
    Campaigns,
}

pub open spec fn file_name_of(f: SnapshotFile) -> Seq<char> {
    match f {
        SnapshotFile::AdsDaily => "ads_daily"@,
        SnapshotFile::Adsets => "adsets"@,
        SnapshotFile::Creatives => "creatives"@,
        SnapshotFile::Crm => "crm"@,
        SnapshotFile::Regions => "regions"@,
        SnapshotFile::Changes => "changes"@,
        SnapshotFile::Campaigns => "campaigns"@,
    }
}

pub fn file_name(f: SnapshotFile) -> (r: &'static str)
    ensures
        r@ == file_name_of(f),
{
    match f {
        SnapshotFile::AdsDaily => "ads_daily",
        SnapshotFile::Adsets => "adsets",
        SnapshotFile::Creatives => "creatives",
        SnapshotFile::Crm => "crm",
        SnapshotFile::Regions => "regions",
        SnapshotFile::Changes => "changes",
        SnapshotFile::Campaigns => "campaigns",
    }
}

/// The files of a snapshot in the order in which they are read.
pub fn snapshot_files() -> (r: Vec<SnapshotFile>)
    ensures
        r@ == seq![
            SnapshotFile::AdsDaily,
            SnapshotFile::Adsets,
            SnapshotFile::Creatives,
            SnapshotFile::Crm,
            SnapshotFile::Regions,
            SnapshotFile::Changes,
            SnapshotFile::Campaigns,
        ],
{
    vec![
        SnapshotFile::AdsDaily,
        SnapshotFile::Adsets,
        SnapshotFile::Creatives,
        SnapshotFile::Crm,
        SnapshotFile::Regions,
        SnapshotFile::Changes,
        SnapshotFile::Campaigns,
    ]
}

/// A snapshot with the document of one of its files; there is none where rows of ads do not read.
pub open spec fn with_file(s: SnapshotV, f: SnapshotFile, j: JsonV) -> Option<SnapshotV> {
    match f {
        SnapshotFile::AdsDaily => match ads_of_json(j) {
            Some(rows) => Some(SnapshotV { ads_daily: rows, ..s }),
            None => None,
        },
        SnapshotFile::Adsets => Some(SnapshotV { adsets: j, ..s }),
        SnapshotFile::Creatives => Some(SnapshotV { creatives: creatives_of(j), ..s }),
        SnapshotFile::Crm => Some(SnapshotV { crm: j, ..s }),
        SnapshotFile::Regions => Some(SnapshotV { regions: j, ..s }),
        SnapshotFile::Changes => Some(SnapshotV { changes: j, ..s }),
        SnapshotFile::Campaigns => Some(SnapshotV { campaigns: j, ..s }),
    }
}

/// Takes in the text of one of the files. One that does not read leaves the snapshot as it is.
pub fn load(snap: &mut Snapshot, file: SnapshotFile, raw: &str) -> (r: Result<(), Error>)
    ensures
        match json_parsed(raw@) {
            Ok(j) => match with_file(old(snap)@, file, j) {
                Some(now) => r is Ok && final(snap)@ == now,
                None => final(snap)@ == old(snap)@ && (r matches Err(Error::Json(m)) && m@
                    == ads_fault(j)),
            },
            Err(why) => final(snap)@ == old(snap)@ && (r matches Err(
                Error::InvalidJson { date, file: name, source },
            ) && date@ == old(snap)@.date && name@ == file_name_of(file) && source@ == why),
        },
{
    let j = match Json::parse(raw) {
        Ok(j) => j,
        Err(source) => {
            return Err(
                Error::InvalidJson {
                    date: snap.date.clone(),
                    file: file_name(file).to_owned(),
                    source,
                },
            );
        },
    };
    match file {
        SnapshotFile::AdsDaily => match read_ads_daily(&j) {
            Some(rows) => {
                snap.ads_daily = rows;
            },
            None => {
                return Err(Error::Json(find_ads_fault(&j)));
            },
        },
        SnapshotFile::Adsets => {
            snap.adsets = j;
        },
        SnapshotFile::Creatives => {
            snap.creatives = parse_creatives(&j);
        },
        SnapshotFile::Crm => {
            snap.crm = j;
        },
        SnapshotFile::Regions => {
            snap.regions = j;
        },
        SnapshotFile::Changes => {
            snap.changes = j;
        },
        SnapshotFile::Campaigns => {
            snap.campaigns = j;
        },
    }
    Ok(())
}

// The directories of snapshots

/// Whether the name of a directory has the shape of a date: ten bytes, and a dash as its fifth
/// character.
pub open spec fn is_date_name(name: Seq<char>) -> bool {
    byte_len(name) == 10 && name.len() > 4 && name[4] == '-'
}

pub fn date_name(name: &str) -> (r: bool)
    ensures
        r == is_date_name(name@),
{
    let v = chars_of(name);
    bytes_up_to(name, 10) == 10 && v.len() > 4 && v[4] == '-'
}

pub open spec fn date_names(names: Seq<Seq<char>>) -> Seq<Seq<char>>
    decreases names.len(),
{
    if names.len() == 0 {
        Seq::empty()
    } else {
        let before = date_names(names.drop_last());
        if is_date_name(names.last()) {
            before.push(names.last())
        } else {
            before
        }
    }
}

/// Of the names of directories those of snapshots, in order.
pub fn list_dates(names: &Vec<String>) -> (r: Vec<String>)
    ensures
        views(r@) == sorted_set(date_names(views(names@))),
{
    let ghost all = views(names@);
    let mut out: Vec<String> = Vec::new();
    let mut i: usize = 0;
    assert(views(out@) =~= Seq::empty());
    assert(all.take(0) =~= Seq::empty());
    while i < names.len()
        invariant
            i <= names@.len(),
            all == views(names@),
            views(out@) == date_names(all.take(i as int)),
        decreases names.len() - i,
    {
        assert(all.take(i + 1).drop_last() =~= all.take(i as int));
        assert(all[i as int] == names@[i as int]@);
        if date_name(names[i].as_str()) {
            push_text(&mut out, names[i].clone());
        }
        i += 1;
    }
    assert(all.take(i as int) =~= all);
    sort_set(&out)
}

} // verus!
