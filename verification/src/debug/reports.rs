//! Reports of answers that a user found wrong: the marker in the conversation and the record of
//! the report.

use crate::crm::source::push_pair;
use crate::dates::{
    indices, is_common, moment_of, newest_order, order_newest, parse_moment, show_stamp,
    stamp_shown, Moment,
};
use crate::json::{
    distinct_keys, find_key, json_normal, json_parsed, json_plain, json_pretty,
    law_normal_keeps_members, lemma_object_plain, nat_in, nat_view, natural, object, object3,
    pairs_view, text, text_in, Json, JsonV, MAX_DEPTH,
};
use crate::records::{field, field_of, is_record, record};
use crate::strs::{cat5, occurs_at, opt_view, starts_with, trim, trimmed};
use vstd::prelude::*;

verus! {

/// The text of the marker for a report.
pub open spec fn marker_of(comment: Seq<char>) -> Seq<char> {
    let c = trimmed(comment);
    "<bug_report>"@ + "The user flagged the response above as wrong or hallucinated."@ + (
    if c.len() == 0 {
        Seq::<char>::empty()
    } else {
        " Comment: "@
    }) + c + "</bug_report>"@
}

/// The marker is put in as an item of the user, so that the model sees that its answer was
/// flagged.
pub fn marker_text(comment: &str) -> (r: String)
    ensures
        r@ == marker_of(comment@),
{
    let c = trim(comment);
    let head = if c.as_str().is_empty() {
        ""
    } else {
        " Comment: "
    };
    proof {
        reveal_strlit("");
        assert(""@ =~= Seq::<char>::empty());
    }
    cat5(
        "<bug_report>",
        "The user flagged the response above as wrong or hallucinated.",
        head,
        c.as_str(),
        "</bug_report>",
    )
}

pub open spec fn is_report_marker(text: Seq<char>) -> bool {
    occurs_at(text, "<bug_report>"@, 0)
}

pub fn is_bug_report_marker(text: &str) -> (r: bool)
    ensures
        r == is_report_marker(text@),
{
    starts_with(text, "<bug_report>")
}

/// The text of a marker is seen as one, whatever the comment.
pub proof fn law_marker_is_flagged(comment: Seq<char>)
    ensures
        is_report_marker(marker_of(comment)),
{
    let m = marker_of(comment);
    let p = "<bug_report>"@;
    assert(m.subrange(0, p.len() as int) =~= p);
}

// Records

/// How a report was closed.
#[derive(Debug)]
pub struct Resolution {
    pub resolved_at: Moment,
    pub fixed_in: String,
    pub note: String,
}

#[verifier::ext_equal]
pub struct ResolutionV {
    pub resolved_at: Moment,
    pub fixed_in: Seq<char>,
    pub note: Seq<char>,
}

impl View for Resolution {
    type V = ResolutionV;

    open spec fn view(&self) -> ResolutionV {
        ResolutionV {
            resolved_at: self.resolved_at,
            fixed_in: self.fixed_in@,
            note: self.note@,
        }
    }
}

/// The record of a report.
#[derive(Debug)]
pub struct BugReport {
    pub session_id: String,
    pub reported_at: Moment,
    pub comment: String,
    /// How many items the conversation had when it was reported.
    pub item_count: usize,
    pub version: String,
    pub resolution: Option<Resolution>,
}

#[verifier::ext_equal]
pub struct BugReportV {
    pub session_id: Seq<char>,
    pub reported_at: Moment,
    pub comment: Seq<char>,
    pub item_count: usize,
    pub version: Seq<char>,
    pub resolution: Option<ResolutionV>,
}

pub open spec fn opt_resolution(o: Option<Resolution>) -> Option<ResolutionV> {
    match o {
        Some(r) => Some(r@),
        None => None,
    }
}

impl View for BugReport {
    type V = BugReportV;

    open spec fn view(&self) -> BugReportV {
        BugReportV {
            session_id: self.session_id@,
            reported_at: self.reported_at,
            comment: self.comment@,
            item_count: self.item_count,
            version: self.version@,
            resolution: opt_resolution(self.resolution),
        }
    }
}

pub open spec fn reports_view(v: Seq<BugReport>) -> Seq<BugReportV> {
    v.map_values(|r: BugReport| r@)
}

/// The record of a new report.
pub fn new_report(
    session_id: &str,
    reported_at: Moment,
    item_count: usize,
    comment: &str,
    version: &str,
) -> (r: BugReport)
    ensures
        r@ == (BugReportV {
            session_id: session_id@,
            reported_at,
            comment: trimmed(comment@),
            item_count,
            version: version@,
            resolution: None,
        }),
{
    BugReport {
        session_id: session_id.to_owned(),
        reported_at,
        comment: trim(comment),
        item_count,
        version: version.to_owned(),
        resolution: None,
    }
}

/// Closes a report.
pub fn close(report: BugReport, resolved_at: Moment, fixed_in: &str, note: &str) -> (r: BugReport)
    ensures
        r@ == (BugReportV {
            resolution: Some(
                ResolutionV { resolved_at, fixed_in: fixed_in@, note: trimmed(note@) },
            ),
            ..report@
        }),
{
    BugReport {
        session_id: report.session_id,
        reported_at: report.reported_at,
        comment: report.comment,
        item_count: report.item_count,
        version: report.version,
        resolution: Some(
            Resolution { resolved_at, fixed_in: fixed_in.to_owned(), note: trim(note) },
        ),
    }
}

pub open spec fn resolution_document(r: ResolutionV) -> JsonV {
    JsonV::Object(
        seq![
            ("resolved_at"@, JsonV::Text(stamp_shown(r.resolved_at))),
            ("fixed_in"@, JsonV::Text(r.fixed_in)),
            ("note"@, JsonV::Text(r.note)),
        ],
    )
}

/// A record as a document; without a resolution the member is left out.
pub open spec fn report_document(r: BugReportV) -> JsonV {
    JsonV::Object(
        seq![
            ("session_id"@, JsonV::Text(r.session_id)),
            ("reported_at"@, JsonV::Text(stamp_shown(r.reported_at))),
            ("comment"@, JsonV::Text(r.comment)),
            ("item_count"@, nat_view(r.item_count as u64)),
            ("version"@, JsonV::Text(r.version)),
        ] + match r.resolution {
            Some(res) => seq![("resolution"@, resolution_document(res))],
            None => Seq::empty(),
        },
    )
}

/// The resolution that a document holds.
pub open spec fn resolution_of(j: JsonV) -> Option<ResolutionV> {
    if !is_record(j, 3) {
        None
    } else {
        match (
            text_in(field(j, "resolved_at"@, 0)),
            text_in(field(j, "fixed_in"@, 1)),
            text_in(field(j, "note"@, 2)),
        ) {
            (Some(at), Some(fixed_in), Some(note)) => match moment_of(at) {
                Some(resolved_at) => Some(ResolutionV { resolved_at, fixed_in, note }),
                None => None,
            },
            _ => None,
        }
    }
}

/// A resolution that may be missing or null; the outer option says whether it reads.
pub open spec fn opt_resolution_of(o: Option<JsonV>) -> Option<Option<ResolutionV>> {
    match o {
        None => Some(None),
        Some(JsonV::Null) => Some(None),
        Some(j) => match resolution_of(j) {
            Some(r) => Some(Some(r)),
            None => None,
        },
    }
}

pub open spec fn count_in(o: Option<JsonV>) -> Option<usize> {
    match nat_in(o) {
        Some(n) => if n <= usize::MAX {
            Some(n as usize)
        } else {
            None
        },
        None => None,
    }
}

/// The record that a document holds.
pub open spec fn report_of(j: JsonV) -> Option<BugReportV> {
    if !is_record(j, 6) {
        None
    } else {
        match (
            text_in(field(j, "session_id"@, 0)),
            text_in(field(j, "reported_at"@, 1)),
            text_in(field(j, "comment"@, 2)),
            count_in(field(j, "item_count"@, 3)),
            text_in(field(j, "version"@, 4)),
            opt_resolution_of(field(j, "resolution"@, 5)),
        ) {
            (
                Some(session_id),
                Some(at),
                Some(comment),
                Some(item_count),
                Some(version),
                Some(resolution),
            ) => match moment_of(at) {
                Some(reported_at) => Some(
                    BugReportV {
                        session_id,
                        reported_at,
                        comment,
                        item_count,
                        version,
                        resolution,
                    },
                ),
                None => None,
            },
            _ => None,
        }
    }
}

/// The record that a text holds.
pub open spec fn report_in(raw: Seq<char>) -> Option<BugReportV> {
    match json_parsed(raw) {
        Ok(j) => report_of(j),
        Err(_) => None,
    }
}

fn text_at(j: &Json, key: &str, i: usize) -> (r: Option<String>)
    ensures
        opt_view(r) == text_in(field(j@, key@, i as int)),
{
    match field_of(j, key, i) {
        Some(v) => match v.as_str() {
            Some(s) => Some(s.to_owned()),
            None => None,
        },
        None => None,
    }
}

fn read_resolution(j: &Json) -> (r: Option<Resolution>)
    ensures
        opt_resolution(r) == resolution_of(j@),
{
    if !record(j, 3) {
        return None;
    }
    match (text_at(j, "resolved_at", 0), text_at(j, "fixed_in", 1), text_at(j, "note", 2)) {
        (Some(at), Some(fixed_in), Some(note)) => match parse_moment(at.as_str()) {
            Some(resolved_at) => Some(Resolution { resolved_at, fixed_in, note }),
            None => None,
        },
        _ => None,
    }
}

fn resolution_field(j: &Json) -> (r: Option<Option<Resolution>>)
    ensures
        match r {
            Some(o) => opt_resolution_of(field(j@, "resolution"@, 5)) == Some(opt_resolution(o)),
            None => opt_resolution_of(field(j@, "resolution"@, 5)) is None,
        },
{
    match field_of(j, "resolution", 5) {
        None => Some(None),
        Some(v) => if v.is_null() {
            Some(None)
        } else {
            match read_resolution(v) {
                Some(r) => Some(Some(r)),
                None => None,
            }
        },
    }
}

fn count_field(j: &Json) -> (r: Option<usize>)
    ensures
        r == count_in(field(j@, "item_count"@, 3)),
{
    match field_of(j, "item_count", 3) {
        Some(v) => match v.as_u64() {
            Some(n) => if n <= usize::MAX as u64 {
                Some(n as usize)
            } else {
                None
            },
            None => None,
        },
        None => None,
    }
}

/// Reads a record out of a text.
pub fn read_report(raw: &str) -> (r: Option<BugReport>)
    ensures
        match r {
            Some(b) => report_in(raw@) == Some(b@),
            None => report_in(raw@) is None,
        },
{
    let j = match Json::parse(raw) {
        Ok(j) => j,
        Err(_) => {
            return None;
        },
    };
    if !record(&j, 6) {
        return None;
    }
    match (
        text_at(&j, "session_id", 0),
        text_at(&j, "reported_at", 1),
        text_at(&j, "comment", 2),
        count_field(&j),
        text_at(&j, "version", 4),
        resolution_field(&j),
    ) {
        (
            Some(session_id),
            Some(at),
            Some(comment),
            Some(item_count),
            Some(version),
            Some(resolution),
        ) => match parse_moment(at.as_str()) {
            Some(reported_at) => Some(
                BugReport { session_id, reported_at, comment, item_count, version, resolution },
            ),
            None => None,
        },
        _ => None,
    }
}

fn resolution_json(r: &Resolution) -> (j: Json)
    ensures
        j@ == resolution_document(r@),
{
    object3(
        "resolved_at",
        text(show_stamp(r.resolved_at).as_str()),
        "fixed_in",
        text(r.fixed_in.as_str()),
        "note",
        text(r.note.as_str()),
    )
}

/// The document of a record.
pub fn report_json(r: &BugReport) -> (j: Json)
    ensures
        j@ == report_document(r@),
{
    let mut out: Vec<(String, Json)> = Vec::new();
    push_pair(&mut out, "session_id", text(r.session_id.as_str()));
    push_pair(&mut out, "reported_at", text(show_stamp(r.reported_at).as_str()));
    push_pair(&mut out, "comment", text(r.comment.as_str()));
    push_pair(&mut out, "item_count", natural(r.item_count as u64));
    push_pair(&mut out, "version", text(r.version.as_str()));
    match &r.resolution {
        Some(res) => {
            push_pair(&mut out, "resolution", resolution_json(res));
        },
        None => {},
    }
    assert(pairs_view(out@) =~= report_document(r@)->Object_0);
    object(out)
}

/// Whether the times of a record are common ones and its count has at most 53 bits.
pub open spec fn is_common_report(r: BugReportV) -> bool {
    &&& is_common(r.reported_at)
    &&& r.item_count <= 0x20_0000_0000_0000
    &&& (r.resolution matches Some(res) ==> is_common(res.resolved_at))
}

proof fn lemma_report_names()
    ensures
        "session_id"@.len() == 10,
        "reported_at"@.len() == 11,
        "comment"@.len() == 7,
        "item_count"@.len() == 10,
        "version"@.len() == 7,
        "resolution"@.len() == 10,
        "session_id"@[0] == 's',
        "item_count"@[0] == 'i',
        "resolution"@[0] == 'r',
        "comment"@[0] == 'c',
        "version"@[0] == 'v',
        "resolved_at"@.len() == 11,
        "fixed_in"@.len() == 8,
        "note"@.len() == 4,
{
    reveal_strlit("session_id");
    reveal_strlit("reported_at");
    reveal_strlit("comment");
    reveal_strlit("item_count");
    reveal_strlit("version");
    reveal_strlit("resolution");
    reveal_strlit("resolved_at");
    reveal_strlit("fixed_in");
    reveal_strlit("note");
}

proof fn lemma_resolution_back(r: ResolutionV)
    requires
        moment_of(stamp_shown(r.resolved_at)) == Some(r.resolved_at),
    ensures
        resolution_of(json_normal(resolution_document(r))) == Some(r),
        json_plain(json_normal(resolution_document(r)), MAX_DEPTH - 1),
{
    lemma_report_names();
    let doc = resolution_document(r)->Object_0;
    assert(distinct_keys(doc));
    law_normal_keeps_members(doc, "resolved_at"@);
    law_normal_keeps_members(doc, "fixed_in"@);
    law_normal_keeps_members(doc, "note"@);
    reveal_with_fuel(find_key, 4);
    let a = doc.drop_first();
    let b = a.drop_first();
    assert(a[0] == doc[1] && b[0] == doc[2]);
    assert(find_key(doc, "resolved_at"@) == Some(doc[0].1));
    assert(find_key(doc, "fixed_in"@) == Some(doc[1].1));
    assert(find_key(doc, "note"@) == Some(doc[2].1));
    lemma_object_plain(doc, MAX_DEPTH - 1);
}

proof fn lemma_report_members(r: BugReportV)
    ensures
        ({
            let doc = report_document(r)->Object_0;
            &&& distinct_keys(doc)
            &&& find_key(doc, "session_id"@) == Some(JsonV::Text(r.session_id))
            &&& find_key(doc, "reported_at"@) == Some(JsonV::Text(stamp_shown(r.reported_at)))
            &&& find_key(doc, "comment"@) == Some(JsonV::Text(r.comment))
            &&& find_key(doc, "item_count"@) == Some(nat_view(r.item_count as u64))
            &&& find_key(doc, "version"@) == Some(JsonV::Text(r.version))
            &&& find_key(doc, "resolution"@) == match r.resolution {
                Some(res) => Some(resolution_document(res)),
                None => None,
            }
        }),
{
    lemma_report_names();
    let doc = report_document(r)->Object_0;
    assert(distinct_keys(doc));
    reveal_with_fuel(find_key, 7);
    let a = doc.drop_first();
    let b = a.drop_first();
    let c = b.drop_first();
    let d = c.drop_first();
    let e = d.drop_first();
    assert(a[0] == doc[1] && b[0] == doc[2] && c[0] == doc[3] && d[0] == doc[4]);
    if doc.len() > 5 {
        assert(e[0] == doc[5]);
        assert(e.drop_first().len() == 0);
    } else {
        assert(e.len() == 0);
    }
}

proof fn lemma_report_back(r: BugReportV)
    requires
        is_common_report(r),
        moment_of(stamp_shown(r.reported_at)) == Some(r.reported_at),
        r.resolution matches Some(res) ==> moment_of(stamp_shown(res.resolved_at)) == Some(
            res.resolved_at,
        ),
    ensures
        report_of(json_normal(report_document(r))) == Some(r),
        json_plain(json_normal(report_document(r)), MAX_DEPTH as int),
{
    lemma_report_members(r);
    let doc = report_document(r)->Object_0;
    let now = json_normal(report_document(r));
    law_normal_keeps_members(doc, "session_id"@);
    law_normal_keeps_members(doc, "reported_at"@);
    law_normal_keeps_members(doc, "comment"@);
    law_normal_keeps_members(doc, "item_count"@);
    law_normal_keeps_members(doc, "version"@);
    law_normal_keeps_members(doc, "resolution"@);
    match r.resolution {
        Some(res) => {
            lemma_resolution_back(res);
            assert(json_normal(resolution_document(res)) is Object);
        },
        None => {},
    }
    assert(json_normal(nat_view(r.item_count as u64)) == nat_view(r.item_count as u64));
    lemma_object_plain(doc, MAX_DEPTH as int);
}

/// The text of a record. A common one is read back.
pub fn report_text(r: &BugReport) -> (t: String)
    ensures
        t@ == json_pretty(json_normal(report_document(r@))),
        is_common_report(r@) ==> report_in(t@) == Some(r@),
{
    let _at = show_stamp(r.reported_at);
    match &r.resolution {
        Some(res) => {
            let _closed = show_stamp(res.resolved_at);
            proof {
                if is_common_report(r@) {
                    lemma_report_back(r@);
                }
            }
        },
        None => {
            proof {
                if is_common_report(r@) {
                    lemma_report_back(r@);
                }
            }
        },
    }
    report_json(r).to_pretty()
}

pub open spec fn report_times(v: Seq<BugReportV>) -> Seq<Moment> {
    v.map_values(|r: BugReportV| r.reported_at)
}

/// The reports newest first; those of one time stay in their order.
pub open spec fn newest_reports(v: Seq<BugReportV>) -> Seq<BugReportV> {
    newest_order(report_times(v), v.len() as int).map_values(|i: int| v[i])
}

fn copy_report(b: &BugReport) -> (r: BugReport)
    ensures
        r@ == b@,
{
    BugReport {
        session_id: b.session_id.clone(),
        reported_at: b.reported_at,
        comment: b.comment.clone(),
        item_count: b.item_count,
        version: b.version.clone(),
        resolution: match &b.resolution {
            Some(x) => Some(
                Resolution {
                    resolved_at: x.resolved_at,
                    fixed_in: x.fixed_in.clone(),
                    note: x.note.clone(),
                },
            ),
            None => None,
        },
    }
}

/// Puts reports newest first.
pub fn sort_reports(list: &Vec<BugReport>) -> (r: Vec<BugReport>)
    ensures
        reports_view(r@) == newest_reports(reports_view(list@)),
        r@.len() == list@.len(),
{
    let ghost all = reports_view(list@);
    let mut times: Vec<Moment> = Vec::new();
    let mut i: usize = 0;
    while i < list.len()
        invariant
            i <= list@.len(),
            all == reports_view(list@),
            times@ == report_times(all).take(i as int),
        decreases list.len() - i,
    {
        assert(all[i as int] == list@[i as int]@);
        times.push(list[i].reported_at);
        assert(times@ =~= report_times(all).take(i + 1));
        i += 1;
    }
    assert(times@ =~= report_times(all));
    let order = order_newest(&times);
    let mut out: Vec<BugReport> = Vec::new();
    let mut k: usize = 0;
    while k < order.len()
        invariant
            k <= order@.len(),
            all == reports_view(list@),
            order@.len() == list@.len(),
            indices(order@) == newest_order(report_times(all), all.len() as int),
            forall|j: int| 0 <= j < order@.len() ==> (#[trigger] order@[j]) < list@.len(),
            reports_view(out@) == newest_reports(all).take(k as int),
        decreases order.len() - k,
    {
        assert(indices(order@)[k as int] == order@[k as int]);
        let b = copy_report(&list[order[k]]);
        assert(indices(order@).len() == order@.len());
        assert(newest_reports(all)[k as int] == b@);
        assert(reports_view(out@.push(b)) =~= reports_view(out@).push(b@));
        assert(reports_view(out@.push(b)) =~= newest_reports(all).take(k + 1));
        out.push(b);
        k += 1;
    }
    assert(indices(order@).len() == order@.len());
    assert(newest_reports(all).take(k as int) =~= newest_reports(all));
    assert(reports_view(out@).len() == out@.len());
    out
}

} // verus!
