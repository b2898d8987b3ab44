//! What the parts around the products show.

use crate::brief::print::grouped;
use crate::report::SectionV;
use crate::report::card::CardV;
use crate::report::html::{cost_of, rate_of, rupees_of};
use crate::report::markup::laws::{
    flat, law_holes_take_their_texts, law_text_stands_between_its_pieces, lemma_flat_shows,
    lemma_part_shows, lemma_shows_itself, lemma_unwoven, with_holes, woven, woven_to,
};
use crate::report::markup::{
    esc_of, filled, has_no_hole, lemma_one_hole, lemma_three_holes, lemma_two_holes, slug_of,
};
use crate::report::sections::{
    all_cards, banner_of, block_of, chips_html, count_delta, cross_html, delta_of, exec_html,
    exec_item, exec_items, explained, fact_html, facts_html, gap_parts, gap_text, glance_of,
    glance_row, glance_rows, items_html, learning_html, lemma_seg_sum_adds, low_tiles,
    missing_names, missing_parts, missing_total, opt_rupees, or_none, part_if, seg_sum, seven_text,
    targeting_html, targetings_html, tile_of, top_tiles, trail_text, Delta, GlanceShown, ScoreShown,
    SegSum, TargetingRow,
};
use crate::report::table::dim_of;
use crate::schema::{ExecLineV, FunnelCounts, Kpis, Segmentation, Verdict};
use crate::strs::{dec, has_text, joined, trim_end};
use vstd::prelude::*;

verus! {

// The brief

/// A line of the brief is shown as a win, as something to watch, or as a note, and shows its text.
pub proof fn law_line_has_its_tone(l: ExecLineV)
    ensures
        l.tone == "win"@ ==> has_text(exec_item(l), "\">"@ + "Win"@ + "</span>"@),
        l.tone == "win"@ ==> has_text(exec_item(l), "\"><span class=\""@ + "tagw"@ + "\">"@),
        l.tone == "watch"@ ==> has_text(exec_item(l), "\">"@ + "Watch"@ + "</span>"@),
        l.tone == "watch"@ ==> has_text(exec_item(l), "\"><span class=\""@ + "tagc"@ + "\">"@),
        l.tone == "watch"@ ==> has_text(exec_item(l), "<li class=\""@ + "con"@ + "\"><span class=\""@),
        l.tone != "win"@ && l.tone != "watch"@ ==> has_text(exec_item(l), "\">"@ + "Note"@ + "</span>"@),
        has_text(exec_item(l), "</span>"@ + esc_of(l.text) + "</li>"@),
{
    reveal_strlit("win");
    reveal_strlit("watch");
    assert("win"@.len() == 3 && "watch"@.len() == 5);
    reveal_strlit("<li class=\"");
    reveal_strlit("\"><span class=\"");
    reveal_strlit("\">");
    reveal_strlit("</span>");
    reveal_strlit("</li>");
    reveal_strlit(
        "<li class=\"{}\"><span class=\"{}\">{}</span>{}</li>",
    );
    let pieces = seq![
        "<li class=\""@,
        "\"><span class=\""@,
        "\">"@,
        "</span>"@,
        "</li>"@,
    ];
    let texts = seq![
        if l.tone == "win"@ {
            "win"@
        } else if l.tone == "watch"@ {
            "con"@
        } else {
            ""@
        },
        if l.tone == "win"@ {
            "tagw"@
        } else if l.tone == "watch"@ {
            "tagc"@
        } else {
            "tagi"@
        },
        if l.tone == "win"@ {
            "Win"@
        } else if l.tone == "watch"@ {
            "Watch"@
        } else {
            "Note"@
        },
        esc_of(l.text),
    ];
    let hole = seq!['{', '}'];
    let template = pieces[0] + hole
        + (pieces[1] + hole + (pieces[2] + hole + (pieces[3] + hole + pieces[4])));
    assert("<li class=\"{}\"><span class=\"{}\">{}</span>{}</li>"@
        =~= template);
    reveal_with_fuel(with_holes, 5);
    assert(with_holes(pieces) == template);
    assert forall|i: int| 0 <= i < pieces.len() implies has_no_hole(#[trigger] pieces[i]) by {}
    law_holes_take_their_texts(pieces, texts);
    assert(exec_item(l) == woven(pieces, texts));
    law_text_stands_between_its_pieces(pieces, texts, 2);
    if l.tone == "win"@ {
        assert(pieces[2] + texts[2] + pieces[3] =~= "\">"@ + "Win"@ + "</span>"@);
    }
    law_text_stands_between_its_pieces(pieces, texts, 1);
    if l.tone == "win"@ {
        assert(pieces[1] + texts[1] + pieces[2] =~= "\"><span class=\""@ + "tagw"@ + "\">"@);
    }
    law_text_stands_between_its_pieces(pieces, texts, 2);
    if l.tone == "watch"@ {
        assert(pieces[2] + texts[2] + pieces[3] =~= "\">"@ + "Watch"@ + "</span>"@);
    }
    law_text_stands_between_its_pieces(pieces, texts, 1);
    if l.tone == "watch"@ {
        assert(pieces[1] + texts[1] + pieces[2] =~= "\"><span class=\""@ + "tagc"@ + "\">"@);
    }
    law_text_stands_between_its_pieces(pieces, texts, 0);
    if l.tone == "watch"@ {
        assert(pieces[0] + texts[0] + pieces[1]
            =~= "<li class=\""@ + "con"@ + "\"><span class=\""@);
    }
    law_text_stands_between_its_pieces(pieces, texts, 2);
    if l.tone != "win"@ && l.tone != "watch"@ {
        assert(pieces[2] + texts[2] + pieces[3] =~= "\">"@ + "Note"@ + "</span>"@);
    }
    law_text_stands_between_its_pieces(pieces, texts, 3);
    assert(pieces[3] + texts[3] + pieces[4] =~= "</span>"@ + esc_of(l.text) + "</li>"@);
}

/// Every line of the brief is shown.
pub proof fn law_every_line_is_shown(lines: Seq<ExecLineV>, n: nat, i: int)
    requires
        0 <= i < n,
    ensures
        has_text(exec_items(lines, n), exec_item(lines[i])),
    decreases n,
{
    let none = Seq::<char>::empty();
    let item = exec_item(lines[i]);
    let ahead = exec_items(lines, (n - 1) as nat);
    let all = exec_items(lines, n);
    let last = exec_item(lines[n - 1]);
    if i == n - 1 {
        assert(all =~= ahead + item + none);
        lemma_shows_itself(ahead, item, none);
    } else {
        law_every_line_is_shown(lines, (n - 1) as nat, i);
        assert(all =~= none + ahead + last);
        lemma_part_shows(all, none, ahead, last, item);
    }
}

/// The panel of the brief holds its lines; there is none without them.
pub proof fn law_panel_holds_its_lines(lines: Seq<ExecLineV>)
    ensures
        lines.len() == 0 ==> exec_html(lines) == ""@,
        lines.len() > 0 ==> has_text(exec_html(lines), exec_items(lines, lines.len())),
{
    if lines.len() > 0 {
        lemma_shows_itself(
            "<div class=\"pblock\" id=\"brief\"><section><div class=\"seckick\">Yesterday in brief</div><div class=\"insight exec\"><ul>"@,
            exec_items(lines, lines.len()),
            "</ul></div></section></div>"@,
        );
    }
}

// What became of the leads

/// The leads of cards are added up, kind by kind, and a card without a segmentation adds none.
pub proof fn law_leads_are_added_by_kind(cards: Seq<CardV>, c: CardV, s: Segmentation)
    ensures
        c.segmentation is None ==> seg_sum(cards.push(c)) == seg_sum(cards),
        c.segmentation == Some(s) ==> {
            let before = seg_sum(cards);
            let now = seg_sum(cards.push(c));
            &&& now.reinquiry == before.reinquiry + s.reinquiry
            &&& now.duplicate == before.duplicate + s.duplicate
            &&& now.invalid == before.invalid + s.invalid
            &&& now.uncaptured == before.uncaptured + s.uncaptured
        },
        seg_sum(Seq::empty()) == (SegSum { reinquiry: 0, duplicate: 0, invalid: 0, uncaptured: 0 }),
{
    assert(cards.push(c).drop_last() =~= cards);
}

/// Whether leads of a card are missing from the CRM.
pub open spec fn lacks_leads(c: CardV) -> bool {
    c.segmentation matches Some(s) && s.uncaptured > 0
}

/// The cards that are named are those of which leads are missing, in their order; there is one just
/// where leads are missing.
pub proof fn law_cards_with_missing_leads_are_named(cards: Seq<CardV>)
    ensures
        missing_names(cards) == cards.filter(|c: CardV| lacks_leads(c)).map_values(
            |c: CardV| c.display_name,
        ),
        seg_sum(cards).uncaptured > 0 <==> missing_names(cards).len() > 0,
    decreases cards.len(),
{
    reveal(Seq::filter);
    let lacks = |c: CardV| lacks_leads(c);
    let name = |c: CardV| c.display_name;
    if cards.len() > 0 {
        law_cards_with_missing_leads_are_named(cards.drop_last());
        let before = cards.drop_last().filter(lacks);
        if lacks(cards.last()) {
            assert(before.push(cards.last()).map_values(name) =~= before.map_values(name).push(
                cards.last().display_name,
            ));
        }
    } else {
        assert(cards.filter(lacks).map_values(name) =~= Seq::empty());
    }
}

/// The leads that are missing are those that are missing from all cards; where there is none, there
/// is no banner.
pub proof fn law_missing_leads_are_those_of_all_cards(products: Seq<SectionV>, until: Seq<char>)
    ensures
        missing_total(products) == seg_sum(all_cards(products)).uncaptured,
        missing_total(products) == 0 ==> banner_of(products, until) == ""@,
    decreases products.len(),
{
    if products.len() > 0 {
        law_missing_leads_are_those_of_all_cards(products.drop_last(), until);
        lemma_seg_sum_adds(all_cards(products.drop_last()), products.last().creatives);
    }
}

/// The banner tells how many leads are missing, from which day, and where.
pub proof fn law_banner_tells_the_missing_leads(products: Seq<SectionV>, until: Seq<char>)
    requires
        missing_total(products) > 0,
    ensures
        has_text(
            banner_of(products, until),
            "<div class=\"missing\"><b>"@ + dec(missing_total(products))
                + " lead(s) are missing from your CRM</b><p>They submitted your ad form on "@,
        ),
        has_text(
            banner_of(products, until),
            " lead(s) are missing from your CRM</b><p>They submitted your ad form on "@
                + esc_of(until)
                + " but never arrived in the CRM. They are paid for and still warm - a same-day call recovers them.</p><div class=\"mwhere\">"@,
        ),
        has_text(
            banner_of(products, until),
            " but never arrived in the CRM. They are paid for and still warm - a same-day call recovers them.</p><div class=\"mwhere\">"@
                + esc_of(joined(missing_parts(products), " &middot; "@)) + "</div></div>"@,
        ),
{
    reveal_strlit("<div class=\"missing\"><b>");
    reveal_strlit(" lead(s) are missing from your CRM</b><p>They submitted your ad form on ");
    reveal_strlit(" but never arrived in the CRM. They are paid for and still warm - a same-day call recovers them.</p><div class=\"mwhere\">");
    reveal_strlit("</div></div>");
    reveal_strlit(
        "<div class=\"missing\"><b>{} lead(s) are missing from your CRM</b><p>They submitted your ad form on {} but never arrived in the CRM. They are paid for and still warm - a same-day call recovers them.</p><div class=\"mwhere\">{}</div></div>",
    );
    let pieces = seq![
        "<div class=\"missing\"><b>"@,
        " lead(s) are missing from your CRM</b><p>They submitted your ad form on "@,
        " but never arrived in the CRM. They are paid for and still warm - a same-day call recovers them.</p><div class=\"mwhere\">"@,
        "</div></div>"@,
    ];
    let texts = seq![
        dec(missing_total(products)),
        esc_of(until),
        esc_of(joined(missing_parts(products), " &middot; "@)),
    ];
    let hole = seq!['{', '}'];
    let template = pieces[0] + hole + (pieces[1] + hole + (pieces[2] + hole + pieces[3]));
    assert("<div class=\"missing\"><b>{} lead(s) are missing from your CRM</b><p>They submitted your ad form on {} but never arrived in the CRM. They are paid for and still warm - a same-day call recovers them.</p><div class=\"mwhere\">{}</div></div>"@
        =~= template);
    reveal_with_fuel(with_holes, 4);
    assert(with_holes(pieces) == template);
    assert forall|i: int| 0 <= i < pieces.len() implies has_no_hole(#[trigger] pieces[i]) by {}
    law_holes_take_their_texts(pieces, texts);
    assert(banner_of(products, until) == woven(pieces, texts));
    law_text_stands_between_its_pieces(pieces, texts, 0);
    assert(pieces[0] + texts[0] + pieces[1]
        =~= "<div class=\"missing\"><b>"@ + dec(missing_total(products))
        + " lead(s) are missing from your CRM</b><p>They submitted your ad form on "@);
    law_text_stands_between_its_pieces(pieces, texts, 1);
    assert(pieces[1] + texts[1] + pieces[2]
        =~= " lead(s) are missing from your CRM</b><p>They submitted your ad form on "@
        + esc_of(until)
        + " but never arrived in the CRM. They are paid for and still warm - a same-day call recovers them.</p><div class=\"mwhere\">"@);
    law_text_stands_between_its_pieces(pieces, texts, 2);
    assert(pieces[2] + texts[2] + pieces[3]
        =~= " but never arrived in the CRM. They are paid for and still warm - a same-day call recovers them.</p><div class=\"mwhere\">"@
        + esc_of(joined(missing_parts(products), " &middot; "@)) + "</div></div>"@);
}

// Changes

/// A change leads from what was before to what is now, up or down.
pub proof fn law_change_leads_to_now(now: u64, before: u64)
    ensures
        count_delta(now, None) is None,
        count_delta(now, Some(before)) matches Some(d) && (d.same <==> now == before) && (d.up
            ==> before + d.size == now) && (!d.up ==> now + d.size == before) && (d.up <==> now
            > before),
{
}

/// A change is shown with its sign and its size; it is a good one where it goes the way that is
/// good.
pub proof fn law_change_is_shown(d: Delta, money: bool, up_is_good: bool)
    ensures
        delta_of(None, money, up_is_good) == ""@,
        d.same ==> has_text(delta_of(Some(d), money, up_is_good), "unchanged"@),
        !d.same && d.up ==> delta_of(Some(d), false, true) == "<div class=\"okd "@ + "up"@ + "\">"@
            + "+"@ + Seq::empty() + grouped(dec(d.size as nat)) + " vs last</div>"@,
        !d.same && !d.up ==> delta_of(Some(d), false, true) == "<div class=\"okd "@ + "down"@
            + "\">"@ + "-"@ + Seq::empty() + grouped(dec(d.size as nat)) + " vs last</div>"@,
        !d.same && d.up ==> delta_of(Some(d), true, false) == "<div class=\"okd "@ + "down"@
            + "\">"@ + "+"@ + Seq::empty() + ("Rs "@ + grouped(dec(d.size as nat)))
            + " vs last</div>"@,
        !d.same && !d.up ==> delta_of(Some(d), true, false) == "<div class=\"okd "@ + "up"@
            + "\">"@ + "-"@ + Seq::empty() + ("Rs "@ + grouped(dec(d.size as nat)))
            + " vs last</div>"@,
{
    reveal_strlit("<div class=\"okd\">unchanged</div>");
    reveal_strlit("unchanged");
    let same = "<div class=\"okd\">unchanged</div>"@;
    assert(same.subrange(17, 26) =~= "unchanged"@);
    assert(crate::strs::occurs_at(same, "unchanged"@, 17));
    if !d.same {
        lemma_change(d, false, true);
        lemma_change(d, true, false);
    }
}

proof fn lemma_change(d: Delta, money: bool, up_is_good: bool)
    requires
        !d.same,
    ensures
        delta_of(Some(d), money, up_is_good) == "<div class=\"okd "@ + (if d.up == up_is_good {
            "up"@
        } else {
            "down"@
        }) + "\">"@ + (if d.up {
            "+"@
        } else {
            "-"@
        }) + Seq::empty() + (if money {
            "Rs "@ + grouped(dec(d.size as nat))
        } else {
            grouped(dec(d.size as nat))
        }) + " vs last</div>"@,
{
    reveal_strlit("<div class=\"okd ");
    reveal_strlit("\">");
    reveal_strlit(" vs last</div>");
    reveal_strlit("<div class=\"okd {}\">{}{} vs last</div>");
    let hole = seq!['{', '}'];
    assert("<div class=\"okd {}\">{}{} vs last</div>"@ =~= "<div class=\"okd "@ + hole + ("\">"@ + hole
        + (Seq::<char>::empty() + hole + " vs last</div>"@)));
    lemma_three_holes(
        "<div class=\"okd {}\">{}{} vs last</div>"@,
        "<div class=\"okd "@,
        "\">"@,
        Seq::empty(),
        " vs last</div>"@,
        if d.up == up_is_good {
            "up"@
        } else {
            "down"@
        },
        if d.up {
            "+"@
        } else {
            "-"@
        },
        if money {
            "Rs "@ + grouped(dec(d.size as nat))
        } else {
            grouped(dec(d.size as nat))
        },
    );
}

// Tiles

/// A tile shows its value, its name, and its change.
pub proof fn law_tile_shows_its_value(
    v: Seq<char>,
    label: Seq<char>,
    dot: Seq<char>,
    delta: Seq<char>,
)
    ensures
        has_text(
            tile_of(v, label, dot, delta),
            "<div class=\"ok\"><div class=\"okv tabnum\">"@ + v
                + "</div><div class=\"okl\"><i class=\"kdot "@,
        ),
        has_text(
            tile_of(v, label, dot, delta),
            "</div><div class=\"okl\"><i class=\"kdot "@ + dot + "\"></i>"@,
        ),
        has_text(tile_of(v, label, dot, delta), "\"></i>"@ + label + "</div>"@),
        has_text(tile_of(v, label, dot, delta), "</div>"@ + delta + "</div>"@),
{
    reveal_strlit("<div class=\"ok\"><div class=\"okv tabnum\">");
    reveal_strlit("</div><div class=\"okl\"><i class=\"kdot ");
    reveal_strlit("\"></i>");
    reveal_strlit("</div>");
    reveal_strlit(
        "<div class=\"ok\"><div class=\"okv tabnum\">{}</div><div class=\"okl\"><i class=\"kdot {}\"></i>{}</div>{}</div>",
    );
    let pieces = seq![
        "<div class=\"ok\"><div class=\"okv tabnum\">"@,
        "</div><div class=\"okl\"><i class=\"kdot "@,
        "\"></i>"@,
        "</div>"@,
        "</div>"@,
    ];
    let texts = seq![
        v,
        dot,
        label,
        delta,
    ];
    let hole = seq!['{', '}'];
    let template = pieces[0] + hole
        + (pieces[1] + hole + (pieces[2] + hole + (pieces[3] + hole + pieces[4])));
    assert("<div class=\"ok\"><div class=\"okv tabnum\">{}</div><div class=\"okl\"><i class=\"kdot {}\"></i>{}</div>{}</div>"@
        =~= template);
    reveal_with_fuel(with_holes, 5);
    assert(with_holes(pieces) == template);
    assert forall|i: int| 0 <= i < pieces.len() implies has_no_hole(#[trigger] pieces[i]) by {}
    law_holes_take_their_texts(pieces, texts);
    assert(tile_of(v, label, dot, delta) == woven(pieces, texts));
    law_text_stands_between_its_pieces(pieces, texts, 0);
    assert(pieces[0] + texts[0] + pieces[1]
        =~= "<div class=\"ok\"><div class=\"okv tabnum\">"@ + v
        + "</div><div class=\"okl\"><i class=\"kdot "@);
    law_text_stands_between_its_pieces(pieces, texts, 1);
    assert(pieces[1] + texts[1] + pieces[2]
        =~= "</div><div class=\"okl\"><i class=\"kdot "@ + dot + "\"></i>"@);
    law_text_stands_between_its_pieces(pieces, texts, 2);
    assert(pieces[2] + texts[2] + pieces[3] =~= "\"></i>"@ + label + "</div>"@);
    law_text_stands_between_its_pieces(pieces, texts, 3);
    assert(pieces[3] + texts[3] + pieces[4] =~= "</div>"@ + delta + "</div>"@);
}

proof fn lemma_flat_5(parts: Seq<Seq<char>>)
    requires
        parts.len() == 5,
    ensures
        flat(parts) == parts[0] + parts[1] + parts[2] + parts[3] + parts[4],
{
    reveal_with_fuel(flat, 6);
    assert(Seq::<char>::empty() + parts[0] =~= parts[0]);
}

/// The money spent, the leads of the ads, those in the CRM, the qualified ones and what one of
/// these costs have their tiles, each with its own change. More money is no good change, and more
/// leads are.
pub proof fn law_sums_have_their_tiles(k: Kpis, f: ScoreShown, prior: FunnelCounts)
    ensures
        has_text(
            top_tiles(k, f, Some(prior)),
            tile_of(rupees_of(f.spend), "Spend"@, "m"@, delta_of(f.spend_delta, true, false)),
        ),
        has_text(
            top_tiles(k, f, Some(prior)),
            tile_of(dec(k.funnel.m_leads as nat), "Meta leads"@, "m"@, delta_of(count_delta(k.funnel.m_leads, Some(prior.m_leads)), false, true)),
        ),
        has_text(
            top_tiles(k, f, Some(prior)),
            tile_of(dec(k.funnel.l_leads as nat), "CRM leads"@, "c"@, delta_of(count_delta(k.funnel.l_leads, Some(prior.l_leads)), false, true)),
        ),
        has_text(
            top_tiles(k, f, Some(prior)),
            tile_of(dec(k.funnel.qualified as nat), "Qualified"@, "c"@, delta_of(count_delta(k.funnel.qualified, Some(prior.qualified)), false, true)),
        ),
        has_text(
            top_tiles(k, f, Some(prior)),
            tile_of(opt_rupees(f.cpq), "Cost / qualified"@, "c"@, delta_of(f.cpq_delta, true, false)),
        ),
{
    let parts = seq![
        tile_of(rupees_of(f.spend), "Spend"@, "m"@, delta_of(f.spend_delta, true, false)),
        tile_of(dec(k.funnel.m_leads as nat), "Meta leads"@, "m"@, delta_of(count_delta(k.funnel.m_leads, Some(prior.m_leads)), false, true)),
        tile_of(dec(k.funnel.l_leads as nat), "CRM leads"@, "c"@, delta_of(count_delta(k.funnel.l_leads, Some(prior.l_leads)), false, true)),
        tile_of(dec(k.funnel.qualified as nat), "Qualified"@, "c"@, delta_of(count_delta(k.funnel.qualified, Some(prior.qualified)), false, true)),
        tile_of(opt_rupees(f.cpq), "Cost / qualified"@, "c"@, delta_of(f.cpq_delta, true, false)),
    ];
    lemma_flat_5(parts);
    lemma_flat_shows(parts, 0);
    lemma_flat_shows(parts, 1);
    lemma_flat_shows(parts, 2);
    lemma_flat_shows(parts, 3);
    lemma_flat_shows(parts, 4);
}

/// The other sums have their tiles: how often the ads were seen and clicked, what a lead of theirs
/// costs, the visits, and the bookings.
pub proof fn law_other_sums_have_their_tiles(k: Kpis, f: ScoreShown)
    ensures
        has_text(
            low_tiles(k, f),
            tile_of(grouped(dec(k.impressions as nat)), "Impressions"@, "m"@, ""@),
        ),
        has_text(
            low_tiles(k, f),
            tile_of(rate_of(k.impressions as nat, f.ctr@), "CTR"@, "m"@, ""@),
        ),
        has_text(
            low_tiles(k, f),
            tile_of(cost_of(k.funnel.m_leads as nat, f.cpl), "Cost / Meta lead"@, "m"@, ""@),
        ),
        has_text(low_tiles(k, f), tile_of(or_none(k.funnel.visit), "Visits"@, "c"@, ""@)),
        has_text(low_tiles(k, f), tile_of(or_none(k.funnel.booking), "Bookings"@, "c"@, ""@)),
{
    let parts = seq![
        tile_of(grouped(dec(k.impressions as nat)), "Impressions"@, "m"@, ""@),
        tile_of(rate_of(k.impressions as nat, f.ctr@), "CTR"@, "m"@, ""@),
        tile_of(cost_of(k.funnel.m_leads as nat, f.cpl), "Cost / Meta lead"@, "m"@, ""@),
        tile_of(or_none(k.funnel.visit), "Visits"@, "c"@, ""@),
        tile_of(or_none(k.funnel.booking), "Bookings"@, "c"@, ""@),
    ];
    lemma_flat_5(parts);
    lemma_flat_shows(parts, 0);
    lemma_flat_shows(parts, 1);
    lemma_flat_shows(parts, 2);
    lemma_flat_shows(parts, 3);
    lemma_flat_shows(parts, 4);
}

// Where the leads went

/// The gap is explained kind by kind: a kind is named where it has leads, with their number.
pub proof fn law_gap_is_explained_by_kind(s: SegSum)
    ensures
        s.reinquiry > 0 ==> gap_parts(s).contains(dec(s.reinquiry) + " already in your CRM"@),
        s.duplicate > 0 ==> gap_parts(s).contains(dec(s.duplicate) + " repeat form-fills"@),
        s.invalid > 0 ==> gap_parts(s).contains(dec(s.invalid) + " invalid numbers"@),
        s.uncaptured > 0 ==> gap_parts(s).contains(
            dec(s.uncaptured) + " never arrived (see banner)"@,
        ),
        explained(s) == 0 <==> gap_parts(s).len() == 0,
{
    lemma_part(s.reinquiry, "{} already in your CRM"@, " already in your CRM"@);
    lemma_part(s.duplicate, "{} repeat form-fills"@, " repeat form-fills"@);
    lemma_part(s.invalid, "{} invalid numbers"@, " invalid numbers"@);
    lemma_part(s.uncaptured, "{} never arrived (see banner)"@, " never arrived (see banner)"@);
    let a = part_if(s.reinquiry, "{} already in your CRM"@);
    let b = part_if(s.duplicate, "{} repeat form-fills"@);
    let c = part_if(s.invalid, "{} invalid numbers"@);
    let d = part_if(s.uncaptured, "{} never arrived (see banner)"@);
    if s.reinquiry > 0 {
        assert(gap_parts(s)[0] == a[0]);
    }
    if s.duplicate > 0 {
        assert(gap_parts(s)[a.len() as int] == b[0]);
    }
    if s.invalid > 0 {
        assert(gap_parts(s)[a.len() + b.len() as int] == c[0]);
    }
    if s.uncaptured > 0 {
        assert(gap_parts(s)[a.len() + b.len() + c.len() as int] == d[0]);
    }
}

proof fn lemma_part(n: nat, template: Seq<char>, behind: Seq<char>)
    requires
        template == "{} already in your CRM"@ && behind == " already in your CRM"@ || template
            == "{} repeat form-fills"@ && behind == " repeat form-fills"@ || template
            == "{} invalid numbers"@ && behind == " invalid numbers"@ || template
            == "{} never arrived (see banner)"@ && behind == " never arrived (see banner)"@,
    ensures
        n > 0 ==> part_if(n, template) == seq![dec(n) + behind],
        n == 0 ==> part_if(n, template).len() == 0,
{
    reveal_strlit("{} already in your CRM");
    reveal_strlit(" already in your CRM");
    reveal_strlit("{} repeat form-fills");
    reveal_strlit(" repeat form-fills");
    reveal_strlit("{} invalid numbers");
    reveal_strlit(" invalid numbers");
    reveal_strlit("{} never arrived (see banner)");
    reveal_strlit(" never arrived (see banner)");
    let none = Seq::<char>::empty();
    assert(template =~= none + seq!['{', '}'] + behind);
    lemma_one_hole(template, none, behind, dec(n));
    assert(none + dec(n) + behind =~= dec(n) + behind);
}

/// The gap is told with its parts; leads of it that are not explained, or explained too often, are
/// told as not yet classified.
pub proof fn law_gap_is_told(gap: nat, s: SegSum)
    ensures
        ({
            let told = " Of the gap of "@ + dec(gap) + ": "@ + joined(gap_parts(s), ", "@) + "."@;
            let open = " lead(s) are still syncing and not yet classified."@;
            &&& explained(s) == gap ==> gap_text(gap, s) == told
            &&& explained(s) < gap ==> gap_text(gap, s) == told + (" "@ + dec(
                (gap - explained(s)) as nat,
            ) + open)
            &&& explained(s) > gap ==> gap_text(gap, s) == told + (" "@ + dec(
                (explained(s) - gap) as nat,
            ) + open)
        }),
{
    reveal_strlit(" Of the gap of ");
    reveal_strlit(": ");
    reveal_strlit(".");
    reveal_strlit(" Of the gap of {}: {}.");
    reveal_strlit(" ");
    reveal_strlit(" lead(s) are still syncing and not yet classified.");
    reveal_strlit(" {} lead(s) are still syncing and not yet classified.");
    let hole = seq!['{', '}'];
    assert(" Of the gap of {}: {}."@ =~= " Of the gap of "@ + hole + (": "@ + hole + "."@));
    lemma_two_holes(
        " Of the gap of {}: {}."@,
        " Of the gap of "@,
        ": "@,
        "."@,
        dec(gap),
        joined(gap_parts(s), ", "@),
    );
    assert(" {} lead(s) are still syncing and not yet classified."@ =~= " "@ + hole
        + " lead(s) are still syncing and not yet classified."@);
    let off = if gap > explained(s) {
        (gap - explained(s)) as nat
    } else {
        (explained(s) - gap) as nat
    };
    lemma_one_hole(
        " {} lead(s) are still syncing and not yet classified."@,
        " "@,
        " lead(s) are still syncing and not yet classified."@,
        dec(off),
    );
    let told = " Of the gap of "@ + dec(gap) + ": "@ + joined(gap_parts(s), ", "@) + "."@;
    assert(told + Seq::<char>::empty() =~= told);
}

/// The trail leads from the leads of the ads to those in the CRM and to the qualified ones; the gap
/// is told only where there is one, and leads from elsewhere only where there are some.
pub proof fn law_trail_tells_the_numbers(k: Kpis, s: SegSum)
    ensures
        ({
            let n = k.funnel;
            let trail = "The trail: "@ + dec(n.m_leads as nat) + " Meta leads -> "@ + dec(
                n.l_leads as nat,
            ) + " arrived in CRM -> "@ + dec(n.qualified as nat) + " qualified."@;
            let apart = " Separately, "@ + dec(k.unattributed_l_leads as nat)
                + " CRM lead(s) came from outside these ads (portals, walk-ins, organic)."@;
            let gap = gap_text((n.m_leads - n.l_leads) as nat, s);
            &&& n.m_leads <= n.l_leads && k.unattributed_l_leads == 0 ==> trail_text(k, s) == trail
            &&& n.m_leads > n.l_leads && k.unattributed_l_leads == 0 ==> trail_text(k, s) == trail
                + gap
            &&& n.m_leads <= n.l_leads && k.unattributed_l_leads > 0 ==> trail_text(k, s) == trail
                + apart
            &&& n.m_leads > n.l_leads && k.unattributed_l_leads > 0 ==> trail_text(k, s) == trail
                + gap + apart
        }),
{
    reveal_strlit("The trail: ");
    reveal_strlit(" Meta leads -> ");
    reveal_strlit(" arrived in CRM -> ");
    reveal_strlit(" qualified.");
    reveal_strlit("The trail: {} Meta leads -> {} arrived in CRM -> {} qualified.");
    reveal_strlit(" Separately, ");
    reveal_strlit(" CRM lead(s) came from outside these ads (portals, walk-ins, organic).");
    reveal_strlit(" Separately, {} CRM lead(s) came from outside these ads (portals, walk-ins, organic).");
    let hole = seq!['{', '}'];
    let n = k.funnel;
    assert("The trail: {} Meta leads -> {} arrived in CRM -> {} qualified."@ =~= "The trail: "@ + hole + (
    " Meta leads -> "@ + hole + (" arrived in CRM -> "@ + hole + " qualified."@)));
    lemma_three_holes(
        "The trail: {} Meta leads -> {} arrived in CRM -> {} qualified."@,
        "The trail: "@,
        " Meta leads -> "@,
        " arrived in CRM -> "@,
        " qualified."@,
        dec(n.m_leads as nat),
        dec(n.l_leads as nat),
        dec(n.qualified as nat),
    );
    assert(" Separately, {} CRM lead(s) came from outside these ads (portals, walk-ins, organic)."@
        =~= " Separately, "@ + hole
        + " CRM lead(s) came from outside these ads (portals, walk-ins, organic)."@);
    lemma_one_hole(
        " Separately, {} CRM lead(s) came from outside these ads (portals, walk-ins, organic)."@,
        " Separately, "@,
        " CRM lead(s) came from outside these ads (portals, walk-ins, organic)."@,
        dec(k.unattributed_l_leads as nat),
    );
    lemma_nothing_behind();
}

proof fn lemma_nothing_behind()
    ensures
        forall|t: Seq<char>| #[trigger] (t + Seq::<char>::empty()) == t,
{
    assert forall|t: Seq<char>| #[trigger] (t + Seq::<char>::empty()) == t by {
        assert(t + Seq::<char>::empty() =~= t);
    }
}

// Products at a glance

spec fn glance_pieces() -> Seq<Seq<char>> {
    seq![
        "<tr><td class=\"nm\"><a href=\"#p-"@,
        "\">"@,
        "</a></td><td>"@,
        "</td><td>"@,
        "</td><td>"@,
        "</td><td>"@,
        "</td><td"@,
        ">"@,
        "</td></tr>"@,
    ]
}

proof fn lemma_glance_template(texts: Seq<Seq<char>>)
    requires
        texts.len() == 8,
    ensures
        filled(
            "<tr><td class=\"nm\"><a href=\"#p-{}\">{}</a></td><td>{}</td><td>{}</td><td>{}</td><td>{}</td><td{}>{}</td></tr>"@,
            texts,
        ) == woven(glance_pieces(), texts),
{
    reveal_strlit("<tr><td class=\"nm\"><a href=\"#p-");
    reveal_strlit("\">");
    reveal_strlit("</a></td><td>");
    reveal_strlit("</td><td>");
    reveal_strlit("</td><td");
    reveal_strlit(">");
    reveal_strlit("</td></tr>");
    reveal_strlit(
        "<tr><td class=\"nm\"><a href=\"#p-{}\">{}</a></td><td>{}</td><td>{}</td><td>{}</td><td>{}</td><td{}>{}</td></tr>",
    );
    let pieces = glance_pieces();
    let hole = seq!['{', '}'];
    let template = pieces[0] + hole
        + (pieces[1] + hole + (pieces[2] + hole + (pieces[3] + hole + (pieces[4] + hole + (pieces[5] + hole + (pieces[6] + hole + (pieces[7] + hole + pieces[8])))))));
    assert("<tr><td class=\"nm\"><a href=\"#p-{}\">{}</a></td><td>{}</td><td>{}</td><td>{}</td><td>{}</td><td{}>{}</td></tr>"@
        =~= template);
    reveal_with_fuel(with_holes, 9);
    assert(with_holes(pieces) == template);
    assert forall|i: int| 0 <= i < pieces.len() implies has_no_hole(#[trigger] pieces[i]) by {}
    law_holes_take_their_texts(pieces, texts);
}

spec fn glance_texts(p: SectionV, f: GlanceShown) -> Seq<Seq<char>> {
    seq![
        slug_of(p.product),
        esc_of(p.product),
        rupees_of(f.spend),
        dec(f.kpis.funnel.l_leads as nat),
        dec(f.kpis.funnel.qualified as nat),
        opt_rupees(f.cpq),
        if seg_sum(p.creatives).uncaptured > 0 {
            " class=\"red\""@
        } else {
            " class=\"dim\""@
        },
        dec(seg_sum(p.creatives).uncaptured),
    ]
}

proof fn lemma_glance_is_woven(p: SectionV, f: GlanceShown)
    ensures
        glance_row(p, f) == woven(glance_pieces(), glance_texts(p, f)),
{
    lemma_glance_template(glance_texts(p, f));
}

/// A row of the products leads to the section of its product, names it, and shows how many of its
/// leads are missing, in red where there are some.
pub proof fn law_product_is_linked_at_a_glance(p: SectionV, f: GlanceShown)
    ensures
        has_text(
            glance_row(p, f),
            "<tr><td class=\"nm\"><a href=\"#p-"@ + slug_of(p.product) + "\">"@,
        ),
        has_text(glance_row(p, f), "\">"@ + esc_of(p.product) + "</a></td><td>"@),
        seg_sum(p.creatives).uncaptured > 0 ==> has_text(
            glance_row(p, f),
            "</td><td"@ + " class=\"red\""@ + ">"@,
        ),
        has_text(glance_row(p, f), ">"@ + dec(seg_sum(p.creatives).uncaptured) + "</td></tr>"@),
{
    lemma_glance_is_woven(p, f);
    let pieces = glance_pieces();
    let texts = glance_texts(p, f);
    law_text_stands_between_its_pieces(pieces, texts, 0);
    assert(pieces[0] + texts[0] + pieces[1]
        =~= "<tr><td class=\"nm\"><a href=\"#p-"@ + slug_of(p.product) + "\">"@);
    law_text_stands_between_its_pieces(pieces, texts, 1);
    assert(pieces[1] + texts[1] + pieces[2] =~= "\">"@ + esc_of(p.product) + "</a></td><td>"@);
    law_text_stands_between_its_pieces(pieces, texts, 6);
    if seg_sum(p.creatives).uncaptured > 0 {
        assert(pieces[6] + texts[6] + pieces[7] =~= "</td><td"@ + " class=\"red\""@ + ">"@);
    }
    law_text_stands_between_its_pieces(pieces, texts, 7);
    assert(pieces[7] + texts[7] + pieces[8]
        =~= ">"@ + dec(seg_sum(p.creatives).uncaptured) + "</td></tr>"@);
}

/// The cells of a row are in the order of their heads: the money spent, the leads in the CRM, the
/// qualified ones, and what one of these costs.
pub proof fn law_product_shows_its_sums_at_a_glance(p: SectionV, f: GlanceShown)
    ensures
        has_text(
            glance_row(p, f),
            "</a></td><td>"@ + rupees_of(f.spend) + "</td><td>"@ + dec(f.kpis.funnel.l_leads as nat)
                + "</td><td>"@ + dec(f.kpis.funnel.qualified as nat) + "</td><td>"@ + opt_rupees(
                f.cpq,
            ) + "</td><td"@,
        ),
{
    lemma_glance_is_woven(p, f);
    let q = glance_pieces();
    let t = glance_texts(p, f);
    let part = "</a></td><td>"@ + rupees_of(f.spend) + "</td><td>"@ + dec(
        f.kpis.funnel.l_leads as nat,
    ) + "</td><td>"@ + dec(f.kpis.funnel.qualified as nat) + "</td><td>"@ + opt_rupees(f.cpq)
        + "</td><td"@;
    let ahead = q[0] + t[0] + q[1] + t[1];
    let behind = t[6] + q[7] + t[7] + q[8];
    lemma_glance_parts(q, t);
    assert(glance_row(p, f) =~= ahead + part + behind);
    lemma_shows_itself(ahead, part, behind);
}

proof fn lemma_glance_parts(q: Seq<Seq<char>>, t: Seq<Seq<char>>)
    requires
        q.len() == 9,
        t.len() == 8,
    ensures
        woven(q, t) == q[0] + t[0] + q[1] + t[1] + (q[2] + t[2] + q[3] + t[3] + q[4] + t[4] + q[5]
            + t[5] + q[6]) + (t[6] + q[7] + t[7] + q[8]),
{
    reveal_with_fuel(woven, 9);
    assert(woven(q, t) =~= q[0] + t[0] + q[1] + t[1] + (q[2] + t[2] + q[3] + t[3] + q[4] + t[4]
        + q[5] + t[5] + q[6]) + (t[6] + q[7] + t[7] + q[8]));
}

/// Every product has its row.
pub proof fn law_every_product_is_at_a_glance(
    products: Seq<SectionV>,
    shown: Seq<GlanceShown>,
    n: nat,
    i: int,
)
    requires
        0 <= i < n,
    ensures
        has_text(glance_rows(products, shown, n), glance_row(products[i], shown[i])),
    decreases n,
{
    let none = Seq::<char>::empty();
    let item = glance_row(products[i], shown[i]);
    let ahead = glance_rows(products, shown, (n - 1) as nat);
    let all = glance_rows(products, shown, n);
    let last = glance_row(products[n - 1], shown[n - 1]);
    if i == n - 1 {
        assert(all =~= ahead + item + none);
        lemma_shows_itself(ahead, item, none);
    } else {
        law_every_product_is_at_a_glance(products, shown, (n - 1) as nat, i);
        assert(all =~= none + ahead + last);
        lemma_part_shows(all, none, ahead, last, item);
    }
}

/// The table of the products is there for two of them at least, and holds their rows.
pub proof fn law_glance_is_for_several(products: Seq<SectionV>, shown: Seq<GlanceShown>)
    ensures
        products.len() <= 1 ==> glance_of(products, shown) == ""@,
        products.len() > 1 ==> has_text(
            glance_of(products, shown),
            glance_rows(products, shown, products.len()),
        ),
{
    if products.len() > 1 {
        lemma_shows_itself(
            "<div class=\"ttable\"><table><thead><tr><th>project</th><th>spend</th><th>crm leads</th><th>qualified</th><th>cost / qualified</th><th>missing</th></tr></thead><tbody>"@,
            glance_rows(products, shown, products.len()),
            "</tbody></table></div>"@,
        );
    }
}

// Targetings

/// A fact that says nothing is left out, and so is a learning that is over; any other is shown.
pub proof fn law_facts_that_say_something_are_shown(t: Seq<char>)
    ensures
        fact_html(None).len() == 0 && learning_html(None).len() == 0,
        fact_html(Some("-"@)).len() == 0 && fact_html(Some("all"@)).len() == 0,
        learning_html(Some("SUCCESS"@)).len() == 0,
        t != "-"@ && t != "all"@ ==> fact_html(Some(t)) == "<span class=\"fact\">"@ + esc_of(t)
            + "</span>"@,
        t != "SUCCESS"@ ==> learning_html(Some(t)) == "<span class=\"fact\">"@ + esc_of(t)
            + "</span>"@,
{
    reveal_strlit("<span class=\"fact\">");
    reveal_strlit("</span>");
    reveal_strlit("<span class=\"fact\">{}</span>");
    assert("<span class=\"fact\">{}</span>"@
        =~= "<span class=\"fact\">"@ + seq!['{', '}'] + "</span>"@);
    lemma_one_hole(
        "<span class=\"fact\">{}</span>"@,
        "<span class=\"fact\">"@,
        "</span>"@,
        esc_of(t),
    );
}

/// Seven days are told by the money spent, the qualified leads, and what one of them costs where
/// there is one.
pub proof fn law_seven_days_are_told(t: TargetingRow)
    ensures
        t.seven_qualified > 0 ==> seven_text(t) == Seq::<char>::empty() + rupees_of(t.seven_spend)
            + " &middot; "@ + dec(t.seven_qualified as nat) + " &middot; "@ + rupees_of(t.seven_cpq)
            + Seq::empty(),
        t.seven_qualified == 0 ==> seven_text(t) == Seq::<char>::empty() + rupees_of(t.seven_spend)
            + " &middot; 0 &middot; -"@,
{
    reveal_strlit(" &middot; ");
    reveal_strlit(" &middot; 0 &middot; -");
    reveal_strlit("{} &middot; {} &middot; {}");
    reveal_strlit("{} &middot; 0 &middot; -");
    let hole = seq!['{', '}'];
    let none = Seq::<char>::empty();
    assert("{} &middot; {} &middot; {}"@
        =~= none + hole + (" &middot; "@ + hole + (" &middot; "@ + hole + none)));
    lemma_three_holes(
        "{} &middot; {} &middot; {}"@,
        none,
        " &middot; "@,
        " &middot; "@,
        none,
        rupees_of(t.seven_spend),
        dec(t.seven_qualified as nat),
        rupees_of(t.seven_cpq),
    );
    assert("{} &middot; 0 &middot; -"@ =~= none + hole + " &middot; 0 &middot; -"@);
    lemma_one_hole("{} &middot; 0 &middot; -"@, none, " &middot; 0 &middot; -"@, rupees_of(t.seven_spend));
}

spec fn targeting_pieces() -> Seq<Seq<char>> {
    seq![
        "<tr><td class=\"tg-nm\">"@,
        "<span class=\"tg-arch\">"@,
        "</span><span class=\"tg-facts\">"@,
        "</span></td><td>"@,
        "</td><td>"@,
        "</td><td"@,
        ">"@,
        "</td><td"@,
        ">"@,
        "</td><td"@,
        ">"@,
        "</td><td>"@,
        "</td><td>"@,
        "</td><td class=\"tg-vd\">"@,
        "</td></tr>"@,
    ]
}

proof fn lemma_targeting_template(texts: Seq<Seq<char>>)
    requires
        texts.len() == 14,
    ensures
        filled(
            "<tr><td class=\"tg-nm\">{}<span class=\"tg-arch\">{}</span><span class=\"tg-facts\">{}</span></td><td>{}</td><td>{}</td><td{}>{}</td><td{}>{}</td><td{}>{}</td><td>{}</td><td>{}</td><td class=\"tg-vd\">{}</td></tr>"@,
            texts,
        ) == woven(targeting_pieces(), texts),
{
    reveal_strlit("<tr><td class=\"tg-nm\">");
    reveal_strlit("<span class=\"tg-arch\">");
    reveal_strlit("</span><span class=\"tg-facts\">");
    reveal_strlit("</span></td><td>");
    reveal_strlit("</td><td>");
    reveal_strlit("</td><td");
    reveal_strlit(">");
    reveal_strlit("</td><td class=\"tg-vd\">");
    reveal_strlit("</td></tr>");
    reveal_strlit(
        "<tr><td class=\"tg-nm\">{}<span class=\"tg-arch\">{}</span><span class=\"tg-facts\">{}</span></td><td>{}</td><td>{}</td><td{}>{}</td><td{}>{}</td><td{}>{}</td><td>{}</td><td>{}</td><td class=\"tg-vd\">{}</td></tr>",
    );
    let pieces = targeting_pieces();
    let hole = seq!['{', '}'];
    let template = pieces[0] + hole
        + (pieces[1] + hole + (pieces[2] + hole + (pieces[3] + hole + (pieces[4] + hole + (pieces[5] + hole + (pieces[6] + hole + (pieces[7] + hole + (pieces[8] + hole + (pieces[9] + hole + (pieces[10] + hole + (pieces[11] + hole + (pieces[12] + hole + (pieces[13] + hole + pieces[14])))))))))))));
    assert("<tr><td class=\"tg-nm\">{}<span class=\"tg-arch\">{}</span><span class=\"tg-facts\">{}</span></td><td>{}</td><td>{}</td><td{}>{}</td><td{}>{}</td><td{}>{}</td><td>{}</td><td>{}</td><td class=\"tg-vd\">{}</td></tr>"@
        =~= template);
    reveal_with_fuel(with_holes, 15);
    assert(with_holes(pieces) == template);
    assert forall|i: int| 0 <= i < pieces.len() implies has_no_hole(#[trigger] pieces[i]) by {}
    law_holes_take_their_texts(pieces, texts);
}

spec fn targeting_texts(t: TargetingRow) -> Seq<Seq<char>> {
    seq![
        esc_of(t.targeting@),
        esc_of(t.archetype@),
        facts_html(t.specs),
        rupees_of(t.spend),
        cost_of(t.m_leads as nat, t.cpl),
        dim_of(t.m_leads as nat),
        dec(t.m_leads as nat),
        dim_of(t.l_leads as nat),
        dec(t.l_leads as nat),
        dim_of(t.qualified as nat),
        dec(t.qualified as nat),
        cost_of(t.qualified as nat, t.cpq),
        seven_text(t),
        trim_end(chips_html(t.verdicts@, t.verdicts@.len())),
    ]
}

proof fn lemma_targeting_is_woven(t: TargetingRow)
    ensures
        targeting_html(t) == woven(targeting_pieces(), targeting_texts(t)),
{
    lemma_targeting_template(targeting_texts(t));
}

/// A targeting is shown with its name, its kind, its facts and its verdicts.
pub proof fn law_targeting_is_named(t: TargetingRow)
    ensures
        has_text(
            targeting_html(t),
            "<tr><td class=\"tg-nm\">"@ + esc_of(t.targeting@) + "<span class=\"tg-arch\">"@,
        ),
        has_text(
            targeting_html(t),
            "<span class=\"tg-arch\">"@ + esc_of(t.archetype@)
                + "</span><span class=\"tg-facts\">"@,
        ),
        has_text(
            targeting_html(t),
            "</span><span class=\"tg-facts\">"@ + facts_html(t.specs) + "</span></td><td>"@,
        ),
        has_text(
            targeting_html(t),
            "</td><td class=\"tg-vd\">"@ + trim_end(chips_html(t.verdicts@, t.verdicts@.len()))
                + "</td></tr>"@,
        ),
{
    lemma_targeting_is_woven(t);
    let pieces = targeting_pieces();
    let texts = targeting_texts(t);
    law_text_stands_between_its_pieces(pieces, texts, 0);
    assert(pieces[0] + texts[0] + pieces[1]
        =~= "<tr><td class=\"tg-nm\">"@ + esc_of(t.targeting@) + "<span class=\"tg-arch\">"@);
    law_text_stands_between_its_pieces(pieces, texts, 1);
    assert(pieces[1] + texts[1] + pieces[2]
        =~= "<span class=\"tg-arch\">"@ + esc_of(t.archetype@)
        + "</span><span class=\"tg-facts\">"@);
    law_text_stands_between_its_pieces(pieces, texts, 2);
    assert(pieces[2] + texts[2] + pieces[3]
        =~= "</span><span class=\"tg-facts\">"@ + facts_html(t.specs) + "</span></td><td>"@);
    law_text_stands_between_its_pieces(pieces, texts, 13);
    assert(pieces[13] + texts[13] + pieces[14]
        =~= "</td><td class=\"tg-vd\">"@ + trim_end(chips_html(t.verdicts@, t.verdicts@.len()))
        + "</td></tr>"@);
}

/// The cells of a targeting are in the order of their heads: the money spent, what a lead of the
/// ads costs, the leads of the ads, those in the CRM, the qualified ones, what one of these costs,
/// and the seven days.
pub proof fn law_targeting_shows_its_sums(t: TargetingRow)
    ensures
        has_text(
            targeting_html(t),
            "</span></td><td>"@ + rupees_of(t.spend) + "</td><td>"@ + cost_of(
                t.m_leads as nat,
                t.cpl,
            ) + "</td><td"@ + dim_of(t.m_leads as nat) + ">"@ + dec(t.m_leads as nat) + "</td><td"@
                + dim_of(t.l_leads as nat) + ">"@ + dec(t.l_leads as nat) + "</td><td"@ + dim_of(
                t.qualified as nat,
            ) + ">"@ + dec(t.qualified as nat) + "</td><td>"@ + cost_of(t.qualified as nat, t.cpq)
                + "</td><td>"@ + seven_text(t) + "</td><td class=\"tg-vd\">"@,
        ),
{
    lemma_targeting_is_woven(t);
    let q = targeting_pieces();
    let u = targeting_texts(t);
    let part = "</span></td><td>"@ + rupees_of(t.spend) + "</td><td>"@ + cost_of(
        t.m_leads as nat,
        t.cpl,
    ) + "</td><td"@ + dim_of(t.m_leads as nat) + ">"@ + dec(t.m_leads as nat) + "</td><td"@ + dim_of(
        t.l_leads as nat,
    ) + ">"@ + dec(t.l_leads as nat) + "</td><td"@ + dim_of(t.qualified as nat) + ">"@ + dec(
        t.qualified as nat,
    ) + "</td><td>"@ + cost_of(t.qualified as nat, t.cpq) + "</td><td>"@ + seven_text(t)
        + "</td><td class=\"tg-vd\">"@;
    let ahead = woven_to(q, u, 3);
    let behind = u[13] + q[14];
    lemma_unwoven(q, u, 3);
    lemma_targeting_parts(q.skip(3), u.skip(3));
    assert(woven(q.skip(3), u.skip(3)) == part + behind);
    assert(targeting_html(t) =~= ahead + part + behind);
    lemma_shows_itself(ahead, part, behind);
}

proof fn lemma_targeting_parts(q: Seq<Seq<char>>, u: Seq<Seq<char>>)
    requires
        q.len() == 12,
        u.len() == 11,
    ensures
        woven(q, u) == q[0] + u[0] + q[1] + u[1] + q[2] + u[2] + q[3] + u[3] + q[4] + u[4] + q[5] + u[5]
            + q[6] + u[6] + q[7] + u[7] + q[8] + u[8] + q[9] + u[9] + q[10] + (u[10] + q[11]),
{
    lemma_unwoven(q, u, 10);
    reveal_with_fuel(woven_to, 11);
    assert(Seq::<char>::empty() + q[0] =~= q[0]);
    let first = woven_to(q, u, 10);
    reveal_with_fuel(woven, 3);
    assert(woven(q.skip(10), u.skip(10)) == q[10] + u[10] + q[11]);
    assert(first + (q[10] + u[10] + q[11]) =~= first + q[10] + (u[10] + q[11]));
}

/// Every targeting has its row.
pub proof fn law_every_targeting_is_shown(rows: Seq<TargetingRow>, n: nat, i: int)
    requires
        0 <= i < n,
    ensures
        has_text(targetings_html(rows, n), targeting_html(rows[i])),
    decreases n,
{
    let none = Seq::<char>::empty();
    let item = targeting_html(rows[i]);
    let ahead = targetings_html(rows, (n - 1) as nat);
    let all = targetings_html(rows, n);
    let last = targeting_html(rows[n - 1]);
    if i == n - 1 {
        assert(all =~= ahead + item + none);
        lemma_shows_itself(ahead, item, none);
    } else {
        law_every_targeting_is_shown(rows, (n - 1) as nat, i);
        assert(all =~= none + ahead + last);
        lemma_part_shows(all, none, ahead, last, item);
    }
}

proof fn lemma_every_verdict(v: Seq<Verdict>, n: nat, i: int)
    requires
        0 <= i < n,
    ensures
        has_text(chips_html(v, n), filled(
        "<span class=\"vchip {}\" title=\"{}\">{}</span> "@,
        seq![esc_of(v[i].code@), esc_of(v[i].detail@), esc_of(v[i].label@)],
    )),
    decreases n,
{
    let none = Seq::<char>::empty();
    let item = filled(
        "<span class=\"vchip {}\" title=\"{}\">{}</span> "@,
        seq![esc_of(v[i].code@), esc_of(v[i].detail@), esc_of(v[i].label@)],
    );
    let ahead = chips_html(v, (n - 1) as nat);
    let all = chips_html(v, n);
    let last = filled(
        "<span class=\"vchip {}\" title=\"{}\">{}</span> "@,
        seq![esc_of(v[n - 1].code@), esc_of(v[n - 1].detail@), esc_of(v[n - 1].label@)],
    );
    if i == n - 1 {
        assert(all =~= ahead + item + none);
        lemma_shows_itself(ahead, item, none);
    } else {
        lemma_every_verdict(v, (n - 1) as nat, i);
        assert(all =~= none + ahead + last);
        lemma_part_shows(all, none, ahead, last, item);
    }
}

/// Every verdict is shown by its label, with its kind as its class and its detail as its title.
pub proof fn law_every_verdict_is_shown(v: Seq<Verdict>, n: nat, i: int)
    requires
        0 <= i < n,
    ensures
        has_text(
            chips_html(v, n),
            "<span class=\"vchip "@ + esc_of(v[i].code@) + "\" title=\""@ + esc_of(v[i].detail@)
                + "\">"@ + esc_of(v[i].label@) + "</span> "@,
        ),
{
    reveal_strlit("<span class=\"vchip ");
    reveal_strlit("\" title=\"");
    reveal_strlit("\">");
    reveal_strlit("</span> ");
    reveal_strlit("<span class=\"vchip {}\" title=\"{}\">{}</span> ");
    let hole = seq!['{', '}'];
    assert("<span class=\"vchip {}\" title=\"{}\">{}</span> "@ =~= "<span class=\"vchip "@ + hole + (
    "\" title=\""@ + hole + ("\">"@ + hole + "</span> "@)));
    lemma_three_holes(
        "<span class=\"vchip {}\" title=\"{}\">{}</span> "@,
        "<span class=\"vchip "@,
        "\" title=\""@,
        "\">"@,
        "</span> "@,
        esc_of(v[i].code@),
        esc_of(v[i].detail@),
        esc_of(v[i].label@),
    );
    lemma_every_verdict(v, n, i);
}

/// Every line that is read across is shown.
pub proof fn law_every_cross_read_is_shown(lines: Seq<Seq<char>>, n: nat, i: int)
    requires
        0 <= i < n,
    ensures
        has_text(items_html(lines, n), ("<li>"@ + esc_of(lines[i]) + "</li>"@)),
    decreases n,
{
    let none = Seq::<char>::empty();
    let item = ("<li>"@ + esc_of(lines[i]) + "</li>"@);
    let ahead = items_html(lines, (n - 1) as nat);
    let all = items_html(lines, n);
    let last = ("<li>"@ + esc_of(lines[n - 1]) + "</li>"@);
    if i == n - 1 {
        assert(all =~= ahead + item + none);
        lemma_shows_itself(ahead, item, none);
    } else {
        law_every_cross_read_is_shown(lines, (n - 1) as nat, i);
        assert(all =~= none + ahead + last);
        lemma_part_shows(all, none, ahead, last, item);
    }
}

/// A product without targetings has no block of them; any other has one with all its rows and what
/// is read across.
pub proof fn law_block_holds_its_targetings(
    product: Seq<char>,
    rows: Seq<TargetingRow>,
    cross: Seq<Seq<char>>,
)
    ensures
        rows.len() == 0 ==> block_of(product, rows, cross) == ""@,
        rows.len() > 0 ==> has_text(
            block_of(product, rows, cross),
            targetings_html(rows, rows.len()),
        ) && cross_html(cross).is_suffix_of(block_of(product, rows, cross)),
        cross.len() == 0 ==> cross_html(cross).len() == 0,
        cross.len() > 0 ==> has_text(cross_html(cross), items_html(cross, cross.len())),
{
    if rows.len() > 0 {
        let all = block_of(product, rows, cross);
        let body = targetings_html(rows, rows.len());
        let head = filled(
            "<div class=\"subhead\" id=\"t-{}\"><span>Targeting</span></div><div class=\"tgwrap\"><table class=\"tgtable\"><thead><tr><th>targeting (by spend)</th><th>spend</th><th>cost / meta lead</th><th>meta leads</th><th>crm leads</th><th>qualified</th><th>cost / qualified</th><th>7d: spend &middot; q &middot; cost/q</th><th>verdict</th></tr></thead><tbody>"@,
            seq![slug_of(product)],
        );
        let behind = "</tbody></table></div>"@ + cross_html(cross);
        assert(all =~= head + body + behind);
        lemma_shows_itself(head, body, behind);
        assert(cross_html(cross) =~= all.subrange(
            all.len() - cross_html(cross).len(),
            all.len() as int,
        ));
    }
    if cross.len() > 0 {
        lemma_shows_itself(
            "<div class=\"insight\"><div class=\"ins-h\">Cross-read</div><ul>"@,
            items_html(cross, cross.len()),
            "</ul></div>"@,
        );
    }
}

} // verus!
