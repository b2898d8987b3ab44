//! What the summary of a report tells.

use crate::report::card::CardV;
use crate::report::markup::laws::{
    law_holes_take_their_texts, law_text_stands_between_its_pieces, lemma_part_shows,
    lemma_shows_itself, with_holes, woven,
};
use crate::report::markup::{
    filled, has_no_hole, lemma_five_holes, lemma_one_hole, lemma_three_holes, lemma_two_holes,
};
use crate::report::summary::{
    card_line, depth_of, list_at, section_lines, sections_lines, summary_of, text_at,
};
use crate::report::{ReportV, SectionV};
use crate::schema::Kpis;
use crate::strs::{dec, has_text, joined, text_lines};
use vstd::prelude::*;

verus! {

/// The depth of a whole funnel is told by its leads, its tickets, the qualified ones, its visits
/// and its bookings.
pub proof fn law_depth_is_told_step_by_step(funnel: Seq<(Seq<char>, nat)>)
    requires
        funnel.len() == 7,
    ensures
        depth_of(funnel) == dec(funnel[2].1) + "/"@ + dec(funnel[3].1) + "/"@ + dec(funnel[4].1)
            + "/"@ + dec(funnel[5].1) + "/"@ + dec(funnel[6].1),
{
    reveal_with_fuel(joined, 6);
    let parts = funnel.skip(2).map_values(|s: (Seq<char>, nat)| dec(s.1));
    assert(parts.drop_last().drop_last().drop_last().drop_last()[0] == dec(funnel[2].1));
}

/// The line of a card tells its status, its name, the money spent, its funnel, and that it has no
/// image just where it has none.
pub proof fn law_card_is_told_in_a_line(c: CardV, spend: Seq<char>)
    ensures
        c.image is Some ==> card_line(c, spend) == "  ["@ + c.status.label + "] "@ + c.display_name
            + "  spend Rs."@ + spend + "  M/L/Q/V/B "@ + depth_of(c.funnel) + "  "@ + ""@
            + Seq::empty(),
        c.image is None ==> card_line(c, spend) == "  ["@ + c.status.label + "] "@ + c.display_name
            + "  spend Rs."@ + spend + "  M/L/Q/V/B "@ + depth_of(c.funnel) + "  "@
            + "(no image)"@ + Seq::empty(),
{
    reveal_strlit("  [");
    reveal_strlit("] ");
    reveal_strlit("  spend Rs.");
    reveal_strlit("  M/L/Q/V/B ");
    reveal_strlit("  ");
    reveal_strlit("  [{}] {}  spend Rs.{}  M/L/Q/V/B {}  {}");
    let hole = seq!['{', '}'];
    let none = Seq::<char>::empty();
    assert("  [{}] {}  spend Rs.{}  M/L/Q/V/B {}  {}"@ =~= "  ["@ + hole + ("] "@ + hole + ("  spend Rs."@
        + hole + ("  M/L/Q/V/B "@ + hole + ("  "@ + hole + none)))));
    lemma_five_holes(
        "  [{}] {}  spend Rs.{}  M/L/Q/V/B {}  {}"@,
        "  ["@,
        "] "@,
        "  spend Rs."@,
        "  M/L/Q/V/B "@,
        "  "@,
        none,
        c.status.label,
        c.display_name,
        spend,
        depth_of(c.funnel),
        if c.image is Some {
            ""@
        } else {
            "(no image)"@
        },
    );
}

/// A product is told by its name and the number of its creatives, behind an empty line, then by its
/// first three cards, and by how many more there are where there are more.
pub proof fn law_product_is_told_by_its_first_cards(s: SectionV, spends: Seq<Seq<char>>, i: int)
    ensures
        ({
            let n = s.creatives.len();
            let lines = section_lines(s, spends);
            &&& lines[0] == ""@
            &&& lines[1] == Seq::<char>::empty() + s.product + " - "@ + dec(n) + " creative(s)"@
            &&& n <= 3 ==> lines.len() == 2 + n
            &&& n > 3 ==> lines.len() == 6 && lines[5] == "  ... +"@ + dec((n - 3) as nat)
                + " more"@
            &&& 0 <= i < n && i < 3 ==> lines[2 + i] == card_line(s.creatives[i], text_at(spends, i))
        }),
{
    reveal_strlit(" - ");
    reveal_strlit(" creative(s)");
    reveal_strlit("{} - {} creative(s)");
    reveal_strlit("  ... +");
    reveal_strlit(" more");
    reveal_strlit("  ... +{} more");
    let hole = seq!['{', '}'];
    let none = Seq::<char>::empty();
    let n = s.creatives.len();
    assert("{} - {} creative(s)"@ =~= none + hole + (" - "@ + hole + " creative(s)"@));
    lemma_two_holes("{} - {} creative(s)"@, none, " - "@, " creative(s)"@, s.product, dec(n));
    assert("  ... +{} more"@ =~= "  ... +"@ + hole + " more"@);
    if n > 3 {
        lemma_one_hole("  ... +{} more"@, "  ... +"@, " more"@, dec((n - 3) as nat));
    }
}

/// Every product is told, in its turn.
pub proof fn law_every_product_is_told(
    products: Seq<SectionV>,
    spends: Seq<Vec<String>>,
    n: nat,
)
    ensures
        n > 0 ==> sections_lines(products, spends, n) == sections_lines(
            products,
            spends,
            (n - 1) as nat,
        ) + section_lines(products[n - 1], list_at(spends, n - 1)),
        sections_lines(products, spends, 0).len() == 0,
{
}

/// A text of lines shows every line.
pub proof fn law_every_line_is_shown(lines: Seq<Seq<char>>, i: int)
    requires
        0 <= i < lines.len(),
    ensures
        has_text(text_lines(lines), lines[i] + seq!['\n']),
    decreases lines.len(),
{
    let none = Seq::<char>::empty();
    let ahead = text_lines(lines.drop_last());
    let all = text_lines(lines);
    let item = lines[i] + seq!['\n'];
    let last = lines.last() + seq!['\n'];
    if i == lines.len() - 1 {
        assert(all =~= ahead + item + none);
        lemma_shows_itself(ahead, item, none);
    } else {
        law_every_line_is_shown(lines.drop_last(), i);
        assert(all =~= none + ahead + last);
        lemma_part_shows(all, none, ahead, last, item);
    }
}

/// The line on all products.
spec fn portfolio_line(k: Kpis, spend: Seq<char>) -> Seq<char> {
    filled(
        "portfolio: spend Rs.{}  impr {}  clicks {}  M {}  L {}  Q {}  V {}  B {}{}"@,
        seq![
            spend,
            dec(k.impressions as nat),
            dec(k.clicks as nat),
            dec(k.funnel.m_leads as nat),
            dec(k.funnel.l_leads as nat),
            dec(k.funnel.qualified as nat),
            dec(k.funnel.visit as nat),
            dec(k.funnel.booking as nat),
            if k.unattributed_l_leads > 0 {
            filled("  (+{} unattributed L)"@, seq![dec(k.unattributed_l_leads as nat)])
        } else {
            ""@
        },
        ],
    )
}

spec fn portfolio_pieces() -> Seq<Seq<char>> {
    seq![
        "portfolio: spend Rs."@,
        "  impr "@,
        "  clicks "@,
        "  M "@,
        "  L "@,
        "  Q "@,
        "  V "@,
        "  B "@,
        Seq::empty(),
        Seq::empty(),
    ]
}

proof fn lemma_portfolio_template(texts: Seq<Seq<char>>)
    requires
        texts.len() == 9,
    ensures
        filled(
            "portfolio: spend Rs.{}  impr {}  clicks {}  M {}  L {}  Q {}  V {}  B {}{}"@,
            texts,
        ) == woven(portfolio_pieces(), texts),
{
    reveal_strlit("portfolio: spend Rs.");
    reveal_strlit("  impr ");
    reveal_strlit("  clicks ");
    reveal_strlit("  M ");
    reveal_strlit("  L ");
    reveal_strlit("  Q ");
    reveal_strlit("  V ");
    reveal_strlit("  B ");
    reveal_strlit(
        "portfolio: spend Rs.{}  impr {}  clicks {}  M {}  L {}  Q {}  V {}  B {}{}",
    );
    let pieces = portfolio_pieces();
    let hole = seq!['{', '}'];
    let template = pieces[0] + hole
        + (pieces[1] + hole + (pieces[2] + hole + (pieces[3] + hole + (pieces[4] + hole + (pieces[5] + hole + (pieces[6] + hole + (pieces[7] + hole + (pieces[8] + hole + pieces[9]))))))));
    assert("portfolio: spend Rs.{}  impr {}  clicks {}  M {}  L {}  Q {}  V {}  B {}{}"@
        =~= template);
    reveal_with_fuel(with_holes, 10);
    assert(with_holes(pieces) == template);
    assert forall|i: int| 0 <= i < pieces.len() implies has_no_hole(#[trigger] pieces[i]) by {}
    law_holes_take_their_texts(pieces, texts);
}

spec fn portfolio_texts(k: Kpis, spend: Seq<char>) -> Seq<Seq<char>> {
    seq![
        spend,
        dec(k.impressions as nat),
        dec(k.clicks as nat),
        dec(k.funnel.m_leads as nat),
        dec(k.funnel.l_leads as nat),
        dec(k.funnel.qualified as nat),
        dec(k.funnel.visit as nat),
        dec(k.funnel.booking as nat),
        if k.unattributed_l_leads > 0 {
            filled("  (+{} unattributed L)"@, seq![dec(k.unattributed_l_leads as nat)])
        } else {
            ""@
        },
    ]
}

proof fn lemma_portfolio_is_woven(k: Kpis, spend: Seq<char>)
    ensures
        portfolio_line(k, spend) == woven(portfolio_pieces(), portfolio_texts(k, spend)),
{
    lemma_portfolio_template(portfolio_texts(k, spend));
}

proof fn lemma_portfolio_is_told(k: Kpis, spend: Seq<char>)
    ensures
        has_text(portfolio_line(k, spend), "portfolio: spend Rs."@ + spend + "  impr "@),
        has_text(portfolio_line(k, spend), "  impr "@ + dec(k.impressions as nat) + "  clicks "@),
        has_text(portfolio_line(k, spend), "  clicks "@ + dec(k.clicks as nat) + "  M "@),
        has_text(portfolio_line(k, spend), "  M "@ + dec(k.funnel.m_leads as nat) + "  L "@),
        has_text(portfolio_line(k, spend), "  L "@ + dec(k.funnel.l_leads as nat) + "  Q "@),
        has_text(portfolio_line(k, spend), "  Q "@ + dec(k.funnel.qualified as nat) + "  V "@),
        has_text(portfolio_line(k, spend), "  V "@ + dec(k.funnel.visit as nat) + "  B "@),
        has_text(portfolio_line(k, spend), "  B "@ + dec(k.funnel.booking as nat)),
{
    lemma_portfolio_is_woven(k, spend);
    let pieces = portfolio_pieces();
    let texts = portfolio_texts(k, spend);
    law_text_stands_between_its_pieces(pieces, texts, 0);
    assert(pieces[0] + texts[0] + pieces[1] =~= "portfolio: spend Rs."@ + spend + "  impr "@);
    law_text_stands_between_its_pieces(pieces, texts, 1);
    assert(pieces[1] + texts[1] + pieces[2]
        =~= "  impr "@ + dec(k.impressions as nat) + "  clicks "@);
    law_text_stands_between_its_pieces(pieces, texts, 2);
    assert(pieces[2] + texts[2] + pieces[3] =~= "  clicks "@ + dec(k.clicks as nat) + "  M "@);
    law_text_stands_between_its_pieces(pieces, texts, 3);
    assert(pieces[3] + texts[3] + pieces[4] =~= "  M "@ + dec(k.funnel.m_leads as nat) + "  L "@);
    law_text_stands_between_its_pieces(pieces, texts, 4);
    assert(pieces[4] + texts[4] + pieces[5] =~= "  L "@ + dec(k.funnel.l_leads as nat) + "  Q "@);
    law_text_stands_between_its_pieces(pieces, texts, 5);
    assert(pieces[5] + texts[5] + pieces[6] =~= "  Q "@ + dec(k.funnel.qualified as nat) + "  V "@);
    law_text_stands_between_its_pieces(pieces, texts, 6);
    assert(pieces[6] + texts[6] + pieces[7] =~= "  V "@ + dec(k.funnel.visit as nat) + "  B "@);
    law_text_stands_between_its_pieces(pieces, texts, 7);
    assert(pieces[7] + texts[7] + pieces[8] =~= "  B "@ + dec(k.funnel.booking as nat));
}

/// The summary tells the day and the window of its report, and every sum of the portfolio behind
/// its letter.
pub proof fn law_summary_tells_the_portfolio(
    r: ReportV,
    k: Kpis,
    spend: Seq<char>,
    spends: Seq<Vec<String>>,
)
    ensures
        has_text(
            summary_of(r, k, spend, spends),
            "CREATIVE REPORT  "@ + r.report_date + "  (window "@ + r.since + ".."@ + r.until + ")"@
                + seq!['\n'],
        ),
        has_text(summary_of(r, k, spend, spends), "portfolio: spend Rs."@ + spend + "  impr "@),
        has_text(
            summary_of(r, k, spend, spends),
            "  impr "@ + dec(k.impressions as nat) + "  clicks "@,
        ),
        has_text(summary_of(r, k, spend, spends), "  clicks "@ + dec(k.clicks as nat) + "  M "@),
        has_text(summary_of(r, k, spend, spends), "  M "@ + dec(k.funnel.m_leads as nat) + "  L "@),
        has_text(summary_of(r, k, spend, spends), "  L "@ + dec(k.funnel.l_leads as nat) + "  Q "@),
        has_text(
            summary_of(r, k, spend, spends),
            "  Q "@ + dec(k.funnel.qualified as nat) + "  V "@,
        ),
        has_text(summary_of(r, k, spend, spends), "  V "@ + dec(k.funnel.visit as nat) + "  B "@),
        has_text(summary_of(r, k, spend, spends), "  B "@ + dec(k.funnel.booking as nat)),
{
    reveal_strlit("CREATIVE REPORT  ");
    reveal_strlit("  (window ");
    reveal_strlit("..");
    reveal_strlit(")");
    reveal_strlit("CREATIVE REPORT  {}  (window {}..{})");
    let hole = seq!['{', '}'];
    assert("CREATIVE REPORT  {}  (window {}..{})"@ =~= "CREATIVE REPORT  "@ + hole + ("  (window "@ + hole + (
    ".."@ + hole + ")"@)));
    lemma_three_holes(
        "CREATIVE REPORT  {}  (window {}..{})"@,
        "CREATIVE REPORT  "@,
        "  (window "@,
        ".."@,
        ")"@,
        r.report_date,
        r.since,
        r.until,
    );
    let head = "CREATIVE REPORT  "@ + r.report_date + "  (window "@ + r.since + ".."@ + r.until
        + ")"@;
    let line = portfolio_line(k, spend);
    let lines = seq![head, line] + sections_lines(r.products, spends, r.products.len());
    assert(lines[0] == head && lines[1] == line);
    law_every_line_is_shown(lines, 0);
    law_every_line_is_shown(lines, 1);
    lemma_portfolio_is_told(k, spend);
    let all = summary_of(r, k, spend, spends);
    assert(all == text_lines(lines));
    lemma_line_within(all, line);
    assert(has_text(line, "portfolio: spend Rs."@ + spend + "  impr "@));
    assert(has_text(line, "  impr "@ + dec(k.impressions as nat) + "  clicks "@));
    assert(has_text(line, "  clicks "@ + dec(k.clicks as nat) + "  M "@));
    assert(has_text(line, "  M "@ + dec(k.funnel.m_leads as nat) + "  L "@));
    assert(has_text(line, "  L "@ + dec(k.funnel.l_leads as nat) + "  Q "@));
    assert(has_text(line, "  Q "@ + dec(k.funnel.qualified as nat) + "  V "@));
    assert(has_text(line, "  V "@ + dec(k.funnel.visit as nat) + "  B "@));
    assert(has_text(line, "  B "@ + dec(k.funnel.booking as nat)));
}

proof fn lemma_line_within(all: Seq<char>, line: Seq<char>)
    requires
        has_text(all, line + seq!['\n']),
    ensures
        forall|p: Seq<char>| #[trigger] has_text(line, p) ==> has_text(all, p),
{
    let whole = line + seq!['\n'];
    let k = choose|k: int| #[trigger] crate::strs::occurs_at(all, whole, k);
    let a = all.take(k);
    let b = all.skip(k + whole.len());
    assert forall|p: Seq<char>| #[trigger] has_text(line, p) implies has_text(all, p) by {
        assert(all.subrange(k, k + whole.len()) == whole);
        assert(all =~= a + line + (seq!['\n'] + b)) by {
            assert forall|i: int| 0 <= i < whole.len() implies all[k + i] == #[trigger] whole[i] by {
                assert(all.subrange(k, k + whole.len())[i] == whole[i]);
            }
            assert forall|i: int| 0 <= i < all.len() implies #[trigger] all[i] == (a + line + (seq!['\n'] + b))[i] by {
                if k <= i < k + whole.len() {
                    assert(all[k + (i - k)] == whole[i - k]);
                }
            }
        }
        lemma_part_shows(all, a, line, seq!['\n'] + b, p);
    }
}

} // verus!
