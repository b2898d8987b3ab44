//! What is counted over all conversations.

use crate::dates::{is_before, law_order_is_newest_first, minute_shown, newest_order};
use crate::debug::audit::{audited, issues_in};
use crate::debug::listing::{
    all_archived, all_filed, all_issues, all_lines, archive_note, filed_lines, flagged,
    frozen_lines, report_head, session_issues, session_lines, FiledReportV, SavedSessionV,
};
use crate::debug::reports::{newest_reports, report_times, BugReportV};
use crate::strs::dec;
use vstd::prelude::*;

verus! {

/// A conversation that cannot be read counts for one issue, and any other for as many as are told
/// of it.
pub proof fn law_unreadable_counts_for_one(id: Seq<char>, raw: Seq<char>, e: Seq<char>)
    ensures
        session_issues(SavedSessionV { id, raw: Err(e) }) == 1,
        audited(raw) is None ==> session_issues(SavedSessionV { id, raw: Ok(raw) }) == 1,
        audited(raw) matches Some(a) ==> session_issues(SavedSessionV { id, raw: Ok(raw) })
            == issues_in(a.2),
        audited(raw) matches Some(a) ==> session_lines(
            SavedSessionV { id, raw: Ok(raw) },
        ).len() == 1 + a.2.len(),
        session_lines(SavedSessionV { id, raw: Err(e) }) == seq![id + "  UNREADABLE: "@ + e],
{
}

/// What is told of two lists of conversations is told of the one behind the other, their issues are
/// added up, and so are those with issues.
pub proof fn law_conversations_add_up(a: Seq<SavedSessionV>, b: Seq<SavedSessionV>)
    ensures
        all_lines(a + b) == all_lines(a) + all_lines(b),
        all_issues(a + b) == all_issues(a) + all_issues(b),
        flagged(a + b) == flagged(a) + flagged(b),
    decreases b.len(),
{
    if b.len() == 0 {
        assert(a + b =~= a);
        assert(all_lines(a) + all_lines(b) =~= all_lines(a));
    } else {
        law_conversations_add_up(a, b.drop_last());
        assert((a + b).drop_last() =~= a + b.drop_last());
        assert((a + b).last() == b.last());
        assert(all_lines(a + b) =~= all_lines(a) + all_lines(b));
    }
}

/// The conversations with issues are those that count for one at least.
pub proof fn law_flagged_have_issues(v: Seq<SavedSessionV>)
    ensures
        flagged(v) == v.filter(|s: SavedSessionV| session_issues(s) > 0).len(),
        flagged(v) <= all_issues(v),
        flagged(v) == 0 <==> all_issues(v) == 0,
    decreases v.len(),
{
    reveal(Seq::filter);
    if v.len() > 0 {
        law_flagged_have_issues(v.drop_last());
    }
}

/// No report comes before a newer one, and every report is there.
pub proof fn law_newest_reports_come_first(v: Seq<BugReportV>, i: int, j: int)
    requires
        0 <= i < j < newest_reports(v).len(),
    ensures
        newest_reports(v).len() == v.len(),
        !is_before(newest_reports(v)[i].reported_at, newest_reports(v)[j].reported_at),
        v.contains(newest_reports(v)[i]),
{
    let times = report_times(v);
    law_order_is_newest_first(times, v.len() as int);
    let o = newest_order(times, v.len() as int);
    assert(newest_reports(v)[i] == v[o[i]]);
    assert(newest_reports(v)[j] == v[o[j]]);
}

// Reports

/// A report is told by its conversation, its time, its version and its place, then by its comment
/// where it has one, and by the copy that was kept.
pub proof fn law_report_is_told(f: FiledReportV)
    ensures
        ({
            let r = f.report;
            let lines = filed_lines(f);
            &&& lines[0].len() == 0
            &&& lines[1] == "  "@ + r.session_id + "  reported "@ + minute_shown(r.reported_at)
                + " UTC  v"@ + r.version + "  at item "@ + dec(r.item_count as nat)
            &&& r.comment.len() > 0 ==> lines[2] == "    comment: "@ + r.comment && lines.skip(3)
                == frozen_lines(f.frozen)
            &&& r.comment.len() == 0 ==> lines.skip(2) == frozen_lines(f.frozen)
        }),
{
    let lines = filed_lines(f);
    if f.report.comment.len() > 0 {
        assert(lines.skip(3) =~= frozen_lines(f.frozen));
    } else {
        assert(lines.skip(2) =~= frozen_lines(f.frozen));
    }
}

/// The copy of a conversation is told by its items and its issues; a missing one, or one that does
/// not read, is told as such.
pub proof fn law_copy_is_told(raw: Seq<char>)
    ensures
        frozen_lines(None) == seq!["    frozen copy: missing"@],
        audited(raw) is None ==> frozen_lines(Some(raw)).len() == 1,
        audited(raw) matches Some(a) ==> frozen_lines(Some(raw)).len() == 1 + a.2.len()
            && frozen_lines(Some(raw))[0] == "    frozen copy: "@ + dec(a.1) + " items, "@ + dec(
            issues_in(a.2),
        ) + " issue(s)"@,
{
}

/// What is told of reports is told of the one behind the other; so it is of those in the archive.
pub proof fn law_reports_are_told_in_turn(
    v: Seq<FiledReportV>,
    f: FiledReportV,
    w: Seq<BugReportV>,
    r: BugReportV,
)
    ensures
        all_filed(Seq::empty()).len() == 0 && all_archived(Seq::empty()).len() == 0,
        all_filed(v.push(f)) == all_filed(v) + filed_lines(f),
        r.comment.len() == 0 && r.resolution is None ==> all_archived(w.push(r)) == all_archived(w)
            + report_head(r),
        r.comment.len() > 0 && r.resolution is None ==> all_archived(w.push(r)) == all_archived(w)
            + report_head(r) + seq!["    comment:  "@ + r.comment],
        all_archived(w.push(r)).len() == all_archived(w).len() + 2 + (if r.comment.len() > 0 {
            1int
        } else {
            0
        }) + (if r.resolution is Some {
            1int
        } else {
            0
        }),
{
    assert(v.push(f).drop_last() =~= v);
    assert(w.push(r).drop_last() =~= w);
    let before = all_archived(w) + report_head(r);
    assert(before + Seq::<Seq<char>>::empty() =~= before);
    let more = before + seq!["    comment:  "@ + r.comment];
    assert(more + Seq::<Seq<char>>::empty() =~= more);
}

/// The archive is told of where it holds a report, with their number.
pub proof fn law_archive_is_told_of(n: nat)
    ensures
        archive_note(0).len() == 0,
        n > 0 ==> archive_note(n) == seq![
            dec(n) + " resolved report(s) in the archive (moneyball debug --archived)"@,
        ],
{
}

} // verus!
