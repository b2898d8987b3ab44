//! What the files of a snapshot say.

use crate::json::{member, JsonV};
use crate::snapshot::{
    ads_of_json, ads_row_read, ads_row_reads, count_in, date_names, file_name_of, is_date_name,
    with_file, SnapshotFile, SnapshotV,
};
use crate::strs::{all_digits, number_of, trimmed};
use vstd::prelude::*;

verus! {

/// Whether a field is the text of a member, or empty where it is missing.
pub open spec fn is_told(s: Seq<char>, j: JsonV, key: Seq<char>) -> bool {
    match member(j, key) {
        Some(JsonV::Text(t)) => s == t,
        Some(_) => false,
        None => s.len() == 0,
    }
}

/// Every field of the row of an ad is the member of its name.
pub proof fn law_row_has_its_fields(j: JsonV)
    requires
        j is Object,
        ads_row_reads(j),
    ensures
        ({
            let r = ads_row_read(j);
            &&& is_told(r.campaign_id, j, "campaign_id"@)
            &&& is_told(r.campaign_name, j, "campaign_name"@)
            &&& is_told(r.adset_id, j, "adset_id"@)
            &&& is_told(r.adset_name, j, "adset_name"@)
            &&& is_told(r.ad_id, j, "ad_id"@)
            &&& is_told(r.ad_name, j, "ad_name"@)
            &&& is_told(r.spend, j, "spend"@)
            &&& is_told(r.impressions, j, "impressions"@)
            &&& is_told(r.reach, j, "reach"@)
            &&& is_told(r.frequency, j, "frequency"@)
            &&& is_told(r.clicks, j, "clicks"@)
            &&& is_told(r.inline_link_clicks, j, "inline_link_clicks"@)
            &&& is_told(r.inline_link_click_ctr, j, "inline_link_click_ctr"@)
            &&& is_told(r.cost_per_inline_link_click, j, "cost_per_inline_link_click"@)
            &&& is_told(r.cpc, j, "cpc"@)
            &&& is_told(r.ctr, j, "ctr"@)
            &&& is_told(r.cpm, j, "cpm"@)
            &&& is_told(r.date_start, j, "date_start"@)
            &&& is_told(r.date_stop, j, "date_stop"@)
            &&& is_told(r._product, j, "_product"@)
            &&& match member(j, "actions"@) {
                Some(a) => a == JsonV::List(r.actions),
                None => r.actions.len() == 0,
            }
        }),
{
}

/// The rows of ads are those of a list, one by one, where every one of them reads; anything else is
/// none.
pub proof fn law_rows_are_read_one_by_one(items: Seq<JsonV>, j: JsonV)
    ensures
        !(j is List) ==> ads_of_json(j) is None,
        (forall|i: int| 0 <= i < items.len() ==> ads_row_reads(#[trigger] items[i])) <==> ads_of_json(
            JsonV::List(items),
        ) is Some,
        ads_of_json(JsonV::List(items)) matches Some(rows) ==> rows.len() == items.len() && forall|
            i: int,
        |
            0 <= i < rows.len() ==> #[trigger] rows[i] == ads_row_read(items[i]),
{
}

/// A number of a row is what its digits denote, white space aside; anything else counts as none.
pub proof fn law_numbers_are_their_digits(s: Seq<char>)
    ensures
        all_digits(trimmed(s)) && number_of(trimmed(s)) <= u64::MAX ==> count_in(s) == number_of(
            trimmed(s),
        ),
        trimmed(s).len() == 0 ==> count_in(s) == 0,
{
    if all_digits(trimmed(s)) {
        assert(trimmed(s)[0] != '+');
    }
}

/// A file fills the part of the snapshot that bears its name, and no other one.
pub proof fn law_files_fill_their_part(s: SnapshotV, f: SnapshotFile, j: JsonV)
    ensures
        with_file(s, SnapshotFile::Crm, j) == Some(SnapshotV { crm: j, ..s }),
        with_file(s, SnapshotFile::Adsets, j) == Some(SnapshotV { adsets: j, ..s }),
        with_file(s, SnapshotFile::Regions, j) == Some(SnapshotV { regions: j, ..s }),
        with_file(s, SnapshotFile::Changes, j) == Some(SnapshotV { changes: j, ..s }),
        with_file(s, SnapshotFile::Campaigns, j) == Some(SnapshotV { campaigns: j, ..s }),
        with_file(s, SnapshotFile::AdsDaily, j) is None <==> ads_of_json(j) is None,
        with_file(s, SnapshotFile::AdsDaily, j) matches Some(t) ==> Some(t.ads_daily) == ads_of_json(
            j,
        ) && t.crm == s.crm && t.adsets == s.adsets && t.creatives == s.creatives,
        with_file(s, f, j) matches Some(t) ==> t.date == s.date && t.path == s.path,
        file_name_of(SnapshotFile::AdsDaily) == "ads_daily"@,
        file_name_of(SnapshotFile::Adsets) == "adsets"@,
        file_name_of(SnapshotFile::Creatives) == "creatives"@,
        file_name_of(SnapshotFile::Crm) == "crm"@,
        file_name_of(SnapshotFile::Regions) == "regions"@,
        file_name_of(SnapshotFile::Changes) == "changes"@,
        file_name_of(SnapshotFile::Campaigns) == "campaigns"@,
{
}

/// The names that are dates are just those with the shape of one, in their order.
pub proof fn law_dates_have_their_shape(names: Seq<Seq<char>>)
    ensures
        date_names(names) == names.filter(|n: Seq<char>| is_date_name(n)),
    decreases names.len(),
{
    reveal(Seq::filter);
    if names.len() > 0 {
        law_dates_have_their_shape(names.drop_last());
    }
}

} // verus!
