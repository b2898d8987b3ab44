//! What a row of the comparison shows.

use crate::brief::print::grouped;
use crate::dates::{date_shown, day_of};
use crate::report::card::CardV;
use crate::report::html::{cost_of, rate_of, rupees_of, status_class_of, CardShown};
use crate::report::markup::laws::{
    law_holes_take_their_texts, law_text_stands_between_its_pieces, lemma_part_shows,
    lemma_shows_itself, lemma_unwoven, with_holes, woven, woven_to,
};
use crate::report::markup::{esc_of, filled, has_no_hole};
use crate::report::summary::count_at;
use crate::report::table::{
    diff_of, dim_of, gap_of, live_since_of, row_html, rows_html, seg_cell, seg_cells_of, signed_of,
    two_digits,
};
use crate::schema::Segmentation;
use crate::strs::{dec, has_text};
use vstd::prelude::*;

verus! {

spec fn row_pieces() -> Seq<Seq<char>> {
    seq![
        "<tr><td class=\"nm\">"@,
        " &middot; <a href=\"#c-"@,
        "-"@,
        "\">"@,
        "</a></td><td>"@,
        "</td><td><span class=\"stx "@,
        "\">"@,
        "</span></td><td>"@,
        "</td><td>"@,
        "</td><td>"@,
        "</td><td"@,
        ">"@,
        "</td><td>"@,
        "</td><td>"@,
        "</td><td"@,
        ">"@,
        "</td>"@,
        Seq::empty(),
        "<td"@,
        ">"@,
        "</td><td"@,
        ">"@,
        "</td><td"@,
        ">"@,
        "</td></tr>"@,
    ]
}

proof fn lemma_row_template(texts: Seq<Seq<char>>)
    requires
        texts.len() == 24,
    ensures
        filled(
            "<tr><td class=\"nm\">{} &middot; <a href=\"#c-{}-{}\">{}</a></td><td>{}</td><td><span class=\"stx {}\">{}</span></td><td>{}</td><td>{}</td><td>{}</td><td{}>{}</td><td>{}</td><td>{}</td><td{}>{}</td>{}{}<td{}>{}</td><td{}>{}</td><td{}>{}</td></tr>"@,
            texts,
        ) == woven(row_pieces(), texts),
{
    reveal_strlit("<tr><td class=\"nm\">");
    reveal_strlit(" &middot; <a href=\"#c-");
    reveal_strlit("-");
    reveal_strlit("\">");
    reveal_strlit("</a></td><td>");
    reveal_strlit("</td><td><span class=\"stx ");
    reveal_strlit("</span></td><td>");
    reveal_strlit("</td><td>");
    reveal_strlit("</td><td");
    reveal_strlit(">");
    reveal_strlit("</td>");
    reveal_strlit("<td");
    reveal_strlit("</td></tr>");
    reveal_strlit(
        "<tr><td class=\"nm\">{} &middot; <a href=\"#c-{}-{}\">{}</a></td><td>{}</td><td><span class=\"stx {}\">{}</span></td><td>{}</td><td>{}</td><td>{}</td><td{}>{}</td><td>{}</td><td>{}</td><td{}>{}</td>{}{}<td{}>{}</td><td{}>{}</td><td{}>{}</td></tr>",
    );
    let pieces = row_pieces();
    let hole = seq!['{', '}'];
    let template = pieces[0] + hole
        + (pieces[1] + hole + (pieces[2] + hole + (pieces[3] + hole + (pieces[4] + hole + (pieces[5] + hole + (pieces[6] + hole + (pieces[7] + hole + (pieces[8] + hole + (pieces[9] + hole + (pieces[10] + hole + (pieces[11] + hole + (pieces[12] + hole + (pieces[13] + hole + (pieces[14] + hole + (pieces[15] + hole + (pieces[16] + hole + (pieces[17] + hole + (pieces[18] + hole + (pieces[19] + hole + (pieces[20] + hole + (pieces[21] + hole + (pieces[22] + hole + (pieces[23] + hole + pieces[24])))))))))))))))))))))));
    assert("<tr><td class=\"nm\">{} &middot; <a href=\"#c-{}-{}\">{}</a></td><td>{}</td><td><span class=\"stx {}\">{}</span></td><td>{}</td><td>{}</td><td>{}</td><td{}>{}</td><td>{}</td><td>{}</td><td{}>{}</td>{}{}<td{}>{}</td><td{}>{}</td><td{}>{}</td></tr>"@
        =~= template);
    reveal_with_fuel(with_holes, 25);
    assert(with_holes(pieces) == template);
    assert forall|i: int| 0 <= i < pieces.len() implies has_no_hole(#[trigger] pieces[i]) by {}
    law_holes_take_their_texts(pieces, texts);
}

spec fn row_texts(
    rank: nat,
    pslug: Seq<char>,
    c: CardV,
    f: CardShown,
    report_date: Seq<char>,
) -> Seq<Seq<char>> {
    seq![
        two_digits(rank),
        pslug,
        dec(rank),
        esc_of(c.display_name),
        live_since_of(c.created, report_date),
        status_class_of(c.status.code),
        esc_of(c.status.label),
        rupees_of(f.spend),
        grouped(dec(c.delivery.sum.impressions)),
        rate_of(c.delivery.sum.impressions, f.ctr@),
        dim_of(count_at(c, 2)),
        dec(count_at(c, 2)),
        cost_of(c.delivery.sum.m_leads, f.cpl),
        rate_of(count_at(c, 2), f.m_to_l@),
        dim_of(count_at(c, 3)),
        dec(count_at(c, 3)),
        diff_of(c),
        seg_cells_of(c.segmentation),
        dim_of(count_at(c, 4)),
        dec(count_at(c, 4)),
        dim_of(count_at(c, 5)),
        dec(count_at(c, 5)),
        dim_of(count_at(c, 6)),
        dec(count_at(c, 6)),
    ]
}

proof fn lemma_row_is_woven(
    rank: nat,
    pslug: Seq<char>,
    c: CardV,
    f: CardShown,
    report_date: Seq<char>,
)
    ensures
        row_html(rank, pslug, c, f, report_date) == woven(row_pieces(), row_texts(rank, pslug, c, f, report_date)),
{
    lemma_row_template(row_texts(rank, pslug, c, f, report_date));
}

/// A row shows its rank and links to the card of that rank under its name; and it shows since when
/// the card is live and its status.
pub proof fn law_row_leads_to_its_card(
    rank: nat,
    pslug: Seq<char>,
    c: CardV,
    f: CardShown,
    report_date: Seq<char>,
)
    ensures
        has_text(
            row_html(rank, pslug, c, f, report_date),
            "<tr><td class=\"nm\">"@ + two_digits(rank) + " &middot; <a href=\"#c-"@,
        ),
        has_text(
            row_html(rank, pslug, c, f, report_date),
            " &middot; <a href=\"#c-"@ + pslug + "-"@,
        ),
        has_text(row_html(rank, pslug, c, f, report_date), "-"@ + dec(rank) + "\">"@),
        has_text(
            row_html(rank, pslug, c, f, report_date),
            "\">"@ + esc_of(c.display_name) + "</a></td><td>"@,
        ),
        has_text(
            row_html(rank, pslug, c, f, report_date),
            "</a></td><td>"@ + live_since_of(c.created, report_date)
                + "</td><td><span class=\"stx "@,
        ),
        has_text(
            row_html(rank, pslug, c, f, report_date),
            "</td><td><span class=\"stx "@ + status_class_of(c.status.code) + "\">"@,
        ),
        has_text(
            row_html(rank, pslug, c, f, report_date),
            "\">"@ + esc_of(c.status.label) + "</span></td><td>"@,
        ),
{
    lemma_row_is_woven(rank, pslug, c, f, report_date);
    let pieces = row_pieces();
    let texts = row_texts(rank, pslug, c, f, report_date);
    law_text_stands_between_its_pieces(pieces, texts, 0);
    assert(pieces[0] + texts[0] + pieces[1]
        =~= "<tr><td class=\"nm\">"@ + two_digits(rank) + " &middot; <a href=\"#c-"@);
    law_text_stands_between_its_pieces(pieces, texts, 1);
    assert(pieces[1] + texts[1] + pieces[2] =~= " &middot; <a href=\"#c-"@ + pslug + "-"@);
    law_text_stands_between_its_pieces(pieces, texts, 2);
    assert(pieces[2] + texts[2] + pieces[3] =~= "-"@ + dec(rank) + "\">"@);
    law_text_stands_between_its_pieces(pieces, texts, 3);
    assert(pieces[3] + texts[3] + pieces[4] =~= "\">"@ + esc_of(c.display_name) + "</a></td><td>"@);
    law_text_stands_between_its_pieces(pieces, texts, 4);
    assert(pieces[4] + texts[4] + pieces[5]
        =~= "</a></td><td>"@ + live_since_of(c.created, report_date)
        + "</td><td><span class=\"stx "@);
    law_text_stands_between_its_pieces(pieces, texts, 5);
    assert(pieces[5] + texts[5] + pieces[6]
        =~= "</td><td><span class=\"stx "@ + status_class_of(c.status.code) + "\">"@);
    law_text_stands_between_its_pieces(pieces, texts, 6);
    assert(pieces[6] + texts[6] + pieces[7]
        =~= "\">"@ + esc_of(c.status.label) + "</span></td><td>"@);
}

/// The cells of the ads and of the CRM come in the order of their heads: what was spent, how often
/// it was seen and clicked, the leads of the ads, what one costs, how many of them are in the CRM,
/// and the leads there.
pub proof fn law_row_shows_what_came_of_it(
    rank: nat,
    pslug: Seq<char>,
    c: CardV,
    f: CardShown,
    report_date: Seq<char>,
)
    ensures
        has_text(
            row_html(rank, pslug, c, f, report_date),
            "</span></td><td>"@ + rupees_of(f.spend) + "</td><td>"@ + grouped(
                dec(c.delivery.sum.impressions),
            ) + "</td><td>"@ + rate_of(c.delivery.sum.impressions, f.ctr@) + "</td><td"@ + dim_of(
                count_at(c, 2),
            ) + ">"@ + dec(count_at(c, 2)) + "</td><td>"@ + cost_of(
                c.delivery.sum.m_leads,
                f.cpl,
            ) + "</td><td>"@ + rate_of(count_at(c, 2), f.m_to_l@) + "</td><td"@ + dim_of(
                count_at(c, 3),
            ) + ">"@ + dec(count_at(c, 3)) + "</td>"@,
        ),
        (diff_of(c) + seg_cells_of(c.segmentation) + "<td"@ + dim_of(count_at(c, 4)) + ">"@ + dec(
            count_at(c, 4),
        ) + "</td><td"@ + dim_of(count_at(c, 5)) + ">"@ + dec(count_at(c, 5)) + "</td><td"@ + dim_of(
            count_at(c, 6),
        ) + ">"@ + dec(count_at(c, 6)) + "</td></tr>"@).is_suffix_of(
            row_html(rank, pslug, c, f, report_date),
        ),
{
    lemma_row_is_woven(rank, pslug, c, f, report_date);
    let p = row_pieces();
    let t = row_texts(rank, pslug, c, f, report_date);
    let all = row_html(rank, pslug, c, f, report_date);
    lemma_woven_ends(p, t, 7);
    lemma_woven_ends(p, t, 16);
    let tail = woven(p.skip(16), t.skip(16));
    let middle = woven(p.skip(7), t.skip(7));
    let end = diff_of(c) + seg_cells_of(c.segmentation) + "<td"@ + dim_of(count_at(c, 4)) + ">"@
        + dec(count_at(c, 4)) + "</td><td"@ + dim_of(count_at(c, 5)) + ">"@ + dec(count_at(c, 5))
        + "</td><td"@ + dim_of(count_at(c, 6)) + ">"@ + dec(count_at(c, 6)) + "</td></tr>"@;
    let part = "</span></td><td>"@ + rupees_of(f.spend) + "</td><td>"@ + grouped(
        dec(c.delivery.sum.impressions),
    ) + "</td><td>"@ + rate_of(c.delivery.sum.impressions, f.ctr@) + "</td><td"@ + dim_of(
        count_at(c, 2),
    ) + ">"@ + dec(count_at(c, 2)) + "</td><td>"@ + cost_of(c.delivery.sum.m_leads, f.cpl)
        + "</td><td>"@ + rate_of(count_at(c, 2), f.m_to_l@) + "</td><td"@ + dim_of(count_at(c, 3))
        + ">"@ + dec(count_at(c, 3)) + "</td>"@;
    lemma_row_end(p.skip(16), t.skip(16));
    assert(tail =~= p[16] + end);
    let k = all.len() - end.len();
    let j = choose|j: int| 0 <= j <= all.len() && #[trigger] all.skip(j) == tail;
    assert(all.subrange(k as int, all.len() as int) =~= end) by {
        assert forall|i: int| 0 <= i < end.len() implies all[k + i] == #[trigger] end[i] by {
            assert(tail[p[16].len() + i] == end[i]);
            assert(all.skip(j)[p[16].len() + i] == all[j + p[16].len() + i]);
        }
    }
    lemma_row_middle(p.skip(7), t.skip(7));
    let m = choose|m: int| 0 <= m <= all.len() && #[trigger] all.skip(m) == middle;
    assert(all =~= all.take(m) + middle + Seq::empty());
    let rest = t[16] + woven(p.skip(7).skip(10), t.skip(7).skip(10));
    let none = Seq::<char>::empty();
    assert(middle =~= none + part + rest);
    lemma_shows_itself(none, part, rest);
    lemma_part_shows(all, all.take(m), middle, none, part);
}

/// What is woven of the pieces and texts from a place on is the end of the whole.
proof fn lemma_woven_ends(pieces: Seq<Seq<char>>, texts: Seq<Seq<char>>, i: int)
    requires
        pieces.len() == texts.len() + 1,
        0 <= i <= texts.len(),
    ensures
        exists|j: int|
            0 <= j <= woven(pieces, texts).len() && #[trigger] woven(pieces, texts).skip(j) == woven(
                pieces.skip(i),
                texts.skip(i),
            ),
    decreases i,
{
    let all = woven(pieces, texts);
    if i == 0 {
        assert(pieces.skip(0) =~= pieces && texts.skip(0) =~= texts);
        assert(all.skip(0) =~= all);
    } else {
        let p = pieces.skip(1);
        let t = texts.skip(1);
        lemma_woven_ends(p, t, i - 1);
        let rest = woven(p, t);
        let j = choose|j: int|
            0 <= j <= rest.len() && #[trigger] rest.skip(j) == woven(p.skip(i - 1), t.skip(i - 1));
        assert(p.skip(i - 1) =~= pieces.skip(i) && t.skip(i - 1) =~= texts.skip(i));
        let at = pieces[0].len() + texts[0].len() + j;
        assert(all.skip(at) =~= rest.skip(j));
    }
}

proof fn lemma_row_end(p: Seq<Seq<char>>, t: Seq<Seq<char>>)
    requires
        p.len() == 9,
        t.len() == 8,
        p[1].len() == 0,
    ensures
        woven(p, t) == p[0] + (t[0] + t[1] + p[2] + t[2] + p[3] + t[3] + p[4] + t[4] + p[5] + t[5]
            + p[6] + t[6] + p[7] + t[7] + p[8]),
{
    reveal_with_fuel(woven, 9);
    assert(woven(p, t) =~= p[0] + (t[0] + t[1] + p[2] + t[2] + p[3] + t[3] + p[4] + t[4] + p[5]
        + t[5] + p[6] + t[6] + p[7] + t[7] + p[8]));
}

proof fn lemma_row_middle(p: Seq<Seq<char>>, t: Seq<Seq<char>>)
    requires
        p.len() == 18,
        t.len() == 17,
    ensures
        woven(p, t) == p[0] + t[0] + p[1] + t[1] + p[2] + t[2] + p[3] + t[3] + p[4] + t[4] + p[5]
            + t[5] + p[6] + t[6] + p[7] + t[7] + p[8] + t[8] + p[9] + (t[9] + woven(
            p.skip(10),
            t.skip(10),
        )),
{
    lemma_unwoven(p, t, 10);
    reveal_with_fuel(woven_to, 11);
    assert(p[0] + t[0] + p[1] + t[1] + p[2] + t[2] + p[3] + t[3] + p[4] + t[4] + p[5] + t[5] + p[6]
        + t[6] + p[7] + t[7] + p[8] + t[8] + p[9] + t[9] + woven(p.skip(10), t.skip(10)) =~= p[0]
        + t[0] + p[1] + t[1] + p[2] + t[2] + p[3] + t[3] + p[4] + t[4] + p[5] + t[5] + p[6] + t[6]
        + p[7] + t[7] + p[8] + t[8] + p[9] + (t[9] + woven(p.skip(10), t.skip(10))));
    assert(Seq::<char>::empty() + p[0] =~= p[0]);
}

/// The rows have the ranks of their places, counted from one.
pub proof fn law_rows_have_their_rank(
    pslug: Seq<char>,
    cards: Seq<CardV>,
    shown: Seq<CardShown>,
    report_date: Seq<char>,
    n: nat,
    i: int,
)
    requires
        0 <= i < n,
    ensures
        has_text(
            rows_html(pslug, cards, shown, report_date, n),
            row_html((i + 1) as nat, pslug, cards[i], shown[i], report_date),
        ),
    decreases n,
{
    let none = Seq::<char>::empty();
    let row = row_html((i + 1) as nat, pslug, cards[i], shown[i], report_date);
    let ahead = rows_html(pslug, cards, shown, report_date, (n - 1) as nat);
    let all = rows_html(pslug, cards, shown, report_date, n);
    let last = row_html(n, pslug, cards[n - 1], shown[n - 1], report_date);
    if i == n - 1 {
        assert(all =~= ahead + row + none);
        lemma_shows_itself(ahead, row, none);
    } else {
        law_rows_have_their_rank(pslug, cards, shown, report_date, (n - 1) as nat, i);
        assert(all =~= none + ahead + last);
        lemma_part_shows(all, none, ahead, last, row);
    }
}

/// A rank has two digits at least. A number has its sign. A count of nothing is dimmed, and no
/// other is.
pub proof fn law_numbers_are_shown(n: nat)
    ensures
        n < 10 ==> two_digits(n) == "0"@ + dec(n),
        n >= 10 ==> two_digits(n) == dec(n),
        signed_of(n as int) == "+"@ + dec(n),
        n > 0 ==> signed_of(-n) == "-"@ + dec(n),
        dim_of(0) == " class=\"dim\""@,
        n > 0 ==> dim_of(n) == ""@,
        n > 0 ==> seg_cell(n) == "<td class=\"seg\">"@ + dec(n) + "</td>"@,
{
}

/// The gap is what the ads brought and the CRM does not have: of the leads that were sorted out
/// those that were not captured, and else by count.
pub proof fn law_gap_is_what_the_crm_lacks(c: CardV)
    ensures
        c.segmentation matches Some(s) ==> gap_of(c) + s.captured == s.total,
        c.segmentation is None ==> gap_of(c) + count_at(c, 3) == count_at(c, 2),
        gap_of(c) == 0 ==> diff_of(c) == "<td class=\"dim\">0</td>"@,
        gap_of(c) > 0 ==> diff_of(c) == "<td>"@ + ("+"@ + dec(gap_of(c) as nat)) + "</td>"@,
        gap_of(c) < 0 ==> diff_of(c) == "<td>"@ + ("-"@ + dec((-gap_of(c)) as nat)) + "</td>"@,
{
}

/// What became of the leads is shown by kind: those that came again, those that were repeated, and
/// those that were rejected or lost.
pub proof fn law_kinds_are_shown(s: Segmentation)
    ensures
        seg_cells_of(Some(s)) == seg_cell(s.reinquiry as nat) + seg_cell(s.duplicate as nat) + seg_cell(
            s.invalid as nat + s.uncaptured as nat,
        ),
        seg_cells_of(None) == "<td class=\"seg dim\">-</td>"@ + "<td class=\"seg dim\">-</td>"@
            + "<td class=\"seg dim\">-</td>"@,
{
    reveal_strlit("<td class=\"seg dim\">-</td>");
    reveal_strlit(
        "<td class=\"seg dim\">-</td><td class=\"seg dim\">-</td><td class=\"seg dim\">-</td>",
    );
    assert("<td class=\"seg dim\">-</td>"@ + "<td class=\"seg dim\">-</td>"@
        + "<td class=\"seg dim\">-</td>"@
        =~= "<td class=\"seg dim\">-</td><td class=\"seg dim\">-</td><td class=\"seg dim\">-</td>"@);
}

/// A creative is live for as many days as lie between its day and that of the report, and none
/// where it is newer.
pub proof fn law_creative_is_live_for_days(c: Seq<char>, report_date: Seq<char>, n: nat)
    ensures
        live_since_of(None, report_date) == "-"@,
        match (day_of(c), day_of(report_date)) {
            (Some(a), Some(b)) => {
                &&& b - a == n ==> live_since_of(Some(c), report_date) == date_shown(c, "%d %b"@)
                    + " &middot; "@ + dec(n) + "d"@
                &&& b < a ==> live_since_of(Some(c), report_date) == date_shown(c, "%d %b"@)
                    + " &middot; "@ + dec(0) + "d"@
            },
            _ => live_since_of(Some(c), report_date) == esc_of(c),
        },
{
}

} // verus!
