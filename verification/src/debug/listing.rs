//! Lists of saved conversations and of reports, as they are printed.

use crate::dates::{minute_shown, show_minute};
use crate::debug::audit::{audit_raw, audited, issues_in};
use crate::debug::reports::{BugReport, BugReportV};
use crate::strs::{
    cat2, cat3, cat5, cat6, dec, decimal_len, decimal_wide, end_lines, indented, opt_view,
    pad_left, push_indented, push_text, right, text_lines, views,
};
use vstd::prelude::*;

pub mod laws;

verus! {

/// A saved conversation: its id, and its text or why it could not be read.
#[derive(Debug)]
pub struct SavedSession {
    pub id: String,
    pub raw: Result<String, String>,
}

#[verifier::ext_equal]
pub struct SavedSessionV {
    pub id: Seq<char>,
    pub raw: Result<Seq<char>, Seq<char>>,
}

impl View for SavedSession {
    type V = SavedSessionV;

    open spec fn view(&self) -> SavedSessionV {
        SavedSessionV {
            id: self.id@,
            raw: match self.raw {
                Ok(t) => Ok(t@),
                Err(e) => Err(e@),
            },
        }
    }
}

pub open spec fn saved_view(v: Seq<SavedSession>) -> Seq<SavedSessionV> {
    v.map_values(|s: SavedSession| s@)
}

/// The lines on one conversation.
pub open spec fn session_lines(s: SavedSessionV) -> Seq<Seq<char>> {
    match s.raw {
        Ok(raw) => match audited(raw) {
            Some(a) => seq![
                a.0.id + "  "@ + minute_shown(a.0.started_at) + "  "@ + pad_left(dec(a.1), 4)
                    + " items  "@ + dec(issues_in(a.2)) + " issue(s)"@,
            ] + indented(a.2, "    "@),
            None => seq![s.id + "  UNREADABLE: "@ + "first line is not a session header"@],
        },
        Err(e) => seq![s.id + "  UNREADABLE: "@ + e],
    }
}

/// How many issues one conversation counts for: one that does not read counts for one.
pub open spec fn session_issues(s: SavedSessionV) -> nat {
    match s.raw {
        Ok(raw) => match audited(raw) {
            Some(a) => issues_in(a.2),
            None => 1,
        },
        Err(_) => 1,
    }
}

pub open spec fn all_lines(v: Seq<SavedSessionV>) -> Seq<Seq<char>>
    decreases v.len(),
{
    if v.len() == 0 {
        Seq::empty()
    } else {
        all_lines(v.drop_last()) + session_lines(v.last())
    }
}

pub open spec fn all_issues(v: Seq<SavedSessionV>) -> nat
    decreases v.len(),
{
    if v.len() == 0 {
        0
    } else {
        all_issues(v.drop_last()) + session_issues(v.last())
    }
}

/// How many of the conversations count for an issue.
pub open spec fn flagged(v: Seq<SavedSessionV>) -> nat
    decreases v.len(),
{
    if v.len() == 0 {
        0
    } else {
        flagged(v.drop_last()) + if session_issues(v.last()) > 0 {
            1nat
        } else {
            0
        }
    }
}

pub open spec fn all_report(v: Seq<SavedSessionV>, dir: Seq<char>) -> Seq<char> {
    if v.len() == 0 {
        text_lines(seq!["(no saved sessions)"@])
    } else {
        text_lines(
            all_lines(v) + seq![
                Seq::empty(),
                dec(v.len()) + " session(s): "@ + dec(flagged(v)) + " with issues, "@ + dec(
                    all_issues(v),
                ) + " issue(s) total"@,
                "to report a problem: moneyball debug <id> --full > report.txt, then share it"@,
                "with the session file from "@ + dir + " (transcripts contain"@,
                "conversation and portfolio data, never API keys - review before sharing)."@,
            ],
        )
    }
}

fn push_session(out: &mut Vec<String>, s: &SavedSession) -> (issues: usize)
    ensures
        views(final(out)@) == views(old(out)@) + session_lines(s@),
        issues == session_issues(s@),
{
    let ghost start = views(out@);
    match &s.raw {
        Ok(raw) => match audit_raw(raw.as_str()) {
            Ok(a) => {
                let issues: usize = a.issue_count();
                let head = cat6(
                    a.meta.id.as_str(),
                    "  ",
                    show_minute(a.meta.started_at).as_str(),
                    "  ",
                    right(decimal_len(a.item_count).as_str(), 4).as_str(),
                    " items  ",
                );
                push_text(
                    out,
                    cat3(head.as_str(), decimal_len(issues).as_str(), " issue(s)"),
                );
                push_indented(out, &a.entries, "    ");
                assert(views(out@) =~= start + session_lines(s@));
                issues
            },
            Err(m) => {
                push_text(out, cat3(s.id.as_str(), "  UNREADABLE: ", m));
                assert(views(out@) =~= start + session_lines(s@));
                1
            },
        },
        Err(e) => {
            push_text(out, cat3(s.id.as_str(), "  UNREADABLE: ", e.as_str()));
            assert(views(out@) =~= start + session_lines(s@));
            1
        },
    }
}

/// What is found in every saved conversation, and how many issues there are.
pub fn report_all(sessions: &Vec<SavedSession>, dir: &str) -> (r: String)
    ensures
        r@ == all_report(saved_view(sessions@), dir@),
{
    let ghost all = saved_view(sessions@);
    let mut out: Vec<String> = Vec::new();
    assert(views(out@) =~= Seq::empty());
    if sessions.len() == 0 {
        push_text(&mut out, "(no saved sessions)".to_owned());
        assert(views(out@) =~= seq!["(no saved sessions)"@]);
        return end_lines(&out);
    }
    let mut with_issues: usize = 0;
    let mut total: u128 = 0;
    let mut i: usize = 0;
    assert(all.take(0) =~= Seq::empty());
    while i < sessions.len()
        invariant
            i <= sessions@.len(),
            all == saved_view(sessions@),
            views(out@) == all_lines(all.take(i as int)),
            with_issues == flagged(all.take(i as int)),
            with_issues <= i,
            total == all_issues(all.take(i as int)),
            total <= i * 0xffff_ffff_ffff_ffff,
        decreases sessions.len() - i,
    {
        assert(all.take(i + 1).drop_last() =~= all.take(i as int));
        assert(all[i as int] == sessions@[i as int]@);
        let issues: usize = push_session(&mut out, &sessions[i]);
        if issues > 0 {
            with_issues += 1;
        }
        assert(total + issues <= (i + 1) * 0xffff_ffff_ffff_ffff) by (nonlinear_arith)
            requires
                total <= i * 0xffff_ffff_ffff_ffff,
                issues <= 0xffff_ffff_ffff_ffff,
        ;
        assert((i + 1) * 0xffff_ffff_ffff_ffff <= 0xffff_ffff_ffff_ffff * 0x1_0000_0000_0000_0000)
            by (nonlinear_arith)
            requires
                i + 1 <= 0x1_0000_0000_0000_0000,
        ;
        total += issues as u128;
        i += 1;
    }
    assert(all.take(i as int) =~= all);
    let ghost body = views(out@);
    push_text(&mut out, String::new());
    push_text(
        &mut out,
        cat6(
            decimal_len(sessions.len()).as_str(),
            " session(s): ",
            decimal_len(with_issues).as_str(),
            " with issues, ",
            decimal_wide(total).as_str(),
            " issue(s) total",
        ),
    );
    push_text(
        &mut out,
        "to report a problem: moneyball debug <id> --full > report.txt, then share it".to_owned(),
    );
    push_text(&mut out, cat3("with the session file from ", dir, " (transcripts contain"));
    push_text(
        &mut out,
        "conversation and portfolio data, never API keys - review before sharing).".to_owned(),
    );
    assert(views(out@) =~= body + seq![
        Seq::empty(),
        dec(all.len()) + " session(s): "@ + dec(flagged(all)) + " with issues, "@ + dec(
            all_issues(all),
        ) + " issue(s) total"@,
        "to report a problem: moneyball debug <id> --full > report.txt, then share it"@,
        "with the session file from "@ + dir@ + " (transcripts contain"@,
        "conversation and portfolio data, never API keys - review before sharing)."@,
    ]);
    end_lines(&out)
}

// Reports

/// A report and the copy of its conversation that was kept, if it is still there.
#[derive(Debug)]
pub struct FiledReport {
    pub report: BugReport,
    pub frozen: Option<String>,
}

#[verifier::ext_equal]
pub struct FiledReportV {
    pub report: BugReportV,
    pub frozen: Option<Seq<char>>,
}

impl View for FiledReport {
    type V = FiledReportV;

    open spec fn view(&self) -> FiledReportV {
        FiledReportV { report: self.report@, frozen: opt_view(self.frozen) }
    }
}

pub open spec fn filed_view(v: Seq<FiledReport>) -> Seq<FiledReportV> {
    v.map_values(|f: FiledReport| f@)
}

/// The line that opens what is printed of a report, behind an empty one.
pub open spec fn report_head(r: BugReportV) -> Seq<Seq<char>> {
    seq![
        Seq::empty(),
        "  "@ + r.session_id + "  reported "@ + minute_shown(r.reported_at) + " UTC  v"@ + r.version
            + "  at item "@ + dec(r.item_count as nat),
    ]
}

pub open spec fn comment_line(r: BugReportV, label: Seq<char>) -> Seq<Seq<char>> {
    if r.comment.len() == 0 {
        Seq::empty()
    } else {
        seq![label + r.comment]
    }
}

/// What is said of the copy of a conversation.
pub open spec fn frozen_lines(frozen: Option<Seq<char>>) -> Seq<Seq<char>> {
    match frozen {
        Some(raw) => match audited(raw) {
            Some(a) => seq![
                "    frozen copy: "@ + dec(a.1) + " items, "@ + dec(issues_in(a.2)) + " issue(s)"@,
            ] + indented(a.2, "      "@),
            None => seq![
                "    frozen copy: UNREADABLE ("@ + "first line is not a session header"@ + ")"@,
            ],
        },
        None => seq!["    frozen copy: missing"@],
    }
}

pub open spec fn filed_lines(f: FiledReportV) -> Seq<Seq<char>> {
    report_head(f.report) + comment_line(f.report, "    comment: "@) + frozen_lines(f.frozen)
}

pub open spec fn all_filed(v: Seq<FiledReportV>) -> Seq<Seq<char>>
    decreases v.len(),
{
    if v.len() == 0 {
        Seq::empty()
    } else {
        all_filed(v.drop_last()) + filed_lines(v.last())
    }
}

pub open spec fn archive_note(archived: nat) -> Seq<Seq<char>> {
    if archived == 0 {
        Seq::empty()
    } else {
        seq![dec(archived) + " resolved report(s) in the archive (moneyball debug --archived)"@]
    }
}

pub open spec fn reports_text(v: Seq<FiledReportV>, dir: Seq<char>, archived: nat) -> Seq<char> {
    if v.len() == 0 {
        text_lines(seq!["(no bug reports filed)"@])
    } else {
        text_lines(
            seq!["bug reports ("@ + dec(v.len()) + "), newest first:"@] + all_filed(v) + seq![
                Seq::empty(),
                "review a report: moneyball debug <id> --full (live file) or the frozen"@,
                "copy in "@ + dir,
                "close one: moneyball debug --resolve <id> --note \"what was fixed\""@,
            ] + archive_note(archived),
        )
    }
}

fn push_head(out: &mut Vec<String>, r: &BugReport)
    ensures
        views(final(out)@) == views(old(out)@) + report_head(r@),
{
    let ghost start = views(out@);
    push_text(out, String::new());
    let head = cat6(
        "  ",
        r.session_id.as_str(),
        "  reported ",
        show_minute(r.reported_at).as_str(),
        " UTC  v",
        r.version.as_str(),
    );
    push_text(out, cat3(head.as_str(), "  at item ", decimal_len(r.item_count).as_str()));
    assert(views(out@) =~= start + report_head(r@));
}

fn push_comment(out: &mut Vec<String>, r: &BugReport, label: &str)
    ensures
        views(final(out)@) == views(old(out)@) + comment_line(r@, label@),
{
    let ghost start = views(out@);
    if r.comment.as_str().is_empty() {
        assert(start + comment_line(r@, label@) =~= start);
    } else {
        push_text(out, cat2(label, r.comment.as_str()));
        assert(views(out@) =~= start + comment_line(r@, label@));
    }
}

fn push_frozen(out: &mut Vec<String>, frozen: &Option<String>)
    ensures
        views(final(out)@) == views(old(out)@) + frozen_lines(opt_view(*frozen)),
{
    let ghost start = views(out@);
    match frozen {
        Some(raw) => match audit_raw(raw.as_str()) {
            Ok(a) => {
                push_text(
                    out,
                    cat5(
                        "    frozen copy: ",
                        decimal_len(a.item_count).as_str(),
                        " items, ",
                        decimal_len(a.issue_count()).as_str(),
                        " issue(s)",
                    ),
                );
                push_indented(out, &a.entries, "      ");
            },
            Err(m) => {
                push_text(out, cat3("    frozen copy: UNREADABLE (", m, ")"));
            },
        },
        None => {
            push_text(out, "    frozen copy: missing".to_owned());
        },
    }
    assert(views(out@) =~= start + frozen_lines(opt_view(*frozen)));
}

/// The open reports, each with what is found in the copy of its conversation.
pub fn report_reports(list: &Vec<FiledReport>, dir: &str, archived: usize) -> (r: String)
    ensures
        r@ == reports_text(filed_view(list@), dir@, archived as nat),
{
    let ghost all = filed_view(list@);
    let mut out: Vec<String> = Vec::new();
    assert(views(out@) =~= Seq::empty());
    if list.len() == 0 {
        push_text(&mut out, "(no bug reports filed)".to_owned());
        assert(views(out@) =~= seq!["(no bug reports filed)"@]);
        return end_lines(&out);
    }
    push_text(
        &mut out,
        cat3("bug reports (", decimal_len(list.len()).as_str(), "), newest first:"),
    );
    let ghost head = seq!["bug reports ("@ + dec(all.len()) + "), newest first:"@];
    let mut i: usize = 0;
    assert(all.take(0) =~= Seq::empty());
    assert(views(out@) =~= head + all_filed(all.take(0)));
    while i < list.len()
        invariant
            i <= list@.len(),
            all == filed_view(list@),
            views(out@) == head + all_filed(all.take(i as int)),
        decreases list.len() - i,
    {
        assert(all.take(i + 1).drop_last() =~= all.take(i as int));
        assert(all[i as int] == list@[i as int]@);
        push_head(&mut out, &list[i].report);
        push_comment(&mut out, &list[i].report, "    comment: ");
        push_frozen(&mut out, &list[i].frozen);
        assert(views(out@) =~= head + all_filed(all.take(i + 1)));
        i += 1;
    }
    assert(all.take(i as int) =~= all);
    let ghost body = views(out@);
    push_text(&mut out, String::new());
    push_text(
        &mut out,
        "review a report: moneyball debug <id> --full (live file) or the frozen".to_owned(),
    );
    push_text(&mut out, cat2("copy in ", dir));
    push_text(
        &mut out,
        "close one: moneyball debug --resolve <id> --note \"what was fixed\"".to_owned(),
    );
    if archived > 0 {
        push_text(
            &mut out,
            cat2(
                decimal_len(archived).as_str(),
                " resolved report(s) in the archive (moneyball debug --archived)",
            ),
        );
    }
    assert(views(out@) =~= body + seq![
        Seq::empty(),
        "review a report: moneyball debug <id> --full (live file) or the frozen"@,
        "copy in "@ + dir@,
        "close one: moneyball debug --resolve <id> --note \"what was fixed\""@,
    ] + archive_note(archived as nat));
    end_lines(&out)
}

/// How a report was closed, as it is printed.
pub open spec fn resolution_lines(r: BugReportV) -> Seq<Seq<char>> {
    match r.resolution {
        Some(res) => seq![
            "    resolved: "@ + minute_shown(res.resolved_at) + " UTC in v"@ + res.fixed_in + " - "@
                + res.note,
        ],
        None => Seq::empty(),
    }
}

pub open spec fn all_archived(v: Seq<BugReportV>) -> Seq<Seq<char>>
    decreases v.len(),
{
    if v.len() == 0 {
        Seq::empty()
    } else {
        all_archived(v.drop_last()) + report_head(v.last()) + comment_line(
            v.last(),
            "    comment:  "@,
        ) + resolution_lines(v.last())
    }
}

pub open spec fn archived_text(v: Seq<BugReportV>) -> Seq<char> {
    if v.len() == 0 {
        text_lines(seq!["(no archived reports)"@])
    } else {
        text_lines(
            seq!["archived reports ("@ + dec(v.len()) + "), newest first:"@] + all_archived(v),
        )
    }
}

/// The closed reports, each with how it was closed.
pub fn report_archived(list: &Vec<BugReport>) -> (r: String)
    ensures
        r@ == archived_text(crate::debug::reports::reports_view(list@)),
{
    let ghost all = crate::debug::reports::reports_view(list@);
    let mut out: Vec<String> = Vec::new();
    assert(views(out@) =~= Seq::empty());
    if list.len() == 0 {
        push_text(&mut out, "(no archived reports)".to_owned());
        assert(views(out@) =~= seq!["(no archived reports)"@]);
        return end_lines(&out);
    }
    push_text(
        &mut out,
        cat3("archived reports (", decimal_len(list.len()).as_str(), "), newest first:"),
    );
    let ghost head = seq!["archived reports ("@ + dec(all.len()) + "), newest first:"@];
    let mut i: usize = 0;
    assert(all.take(0) =~= Seq::empty());
    assert(views(out@) =~= head + all_archived(all.take(0)));
    while i < list.len()
        invariant
            i <= list@.len(),
            all == crate::debug::reports::reports_view(list@),
            views(out@) == head + all_archived(all.take(i as int)),
        decreases list.len() - i,
    {
        assert(all.take(i + 1).drop_last() =~= all.take(i as int));
        assert(all[i as int] == list@[i as int]@);
        push_head(&mut out, &list[i]);
        push_comment(&mut out, &list[i], "    comment:  ");
        let ghost mid = views(out@);
        match &list[i].resolution {
            Some(res) => {
                push_text(
                    &mut out,
                    cat6(
                        "    resolved: ",
                        show_minute(res.resolved_at).as_str(),
                        " UTC in v",
                        res.fixed_in.as_str(),
                        " - ",
                        res.note.as_str(),
                    ),
                );
            },
            None => {},
        }
        assert(views(out@) =~= mid + resolution_lines(all[i as int]));
        assert(views(out@) =~= head + all_archived(all.take(i + 1)));
        i += 1;
    }
    assert(all.take(i as int) =~= all);
    end_lines(&out)
}

} // verus!
