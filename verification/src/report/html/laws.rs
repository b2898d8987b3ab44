//! What a page shows of its report.

use crate::brief::print::grouped;
use crate::report::card::{BreakdownV, CardV};
use crate::report::html::{
    bar_at, bar_of, bars_of, card_html, cards_html, chips_of, cost_of, crm_note, funnel_bars_of,
    image_html, kpi_cell, kpi_cells_of, kpi_of, nav_of, page_of, rate_of, rupees_of, section_html,
    sections_html, status_class_of, targeting_chips_of, window_text, CardShown, Embedded, KpiShown,
    SectionShown,
};
use crate::report::markup::laws::{
    flat, law_holes_take_their_texts, law_text_stands_between_its_pieces, lemma_flat_shows,
    lemma_part_shows, lemma_shows_itself, with_holes, woven,
};
use crate::report::markup::{b64_of, esc_of, filled, has_no_hole, slug_of};
use crate::report::table::table_html;
use crate::report::{ReportV, SectionV};
use crate::schema::{Kpis, StatusCode};
use crate::strs::laws::law_occurrence_is_replaced;
use crate::strs::{dec, has_text, joined, occurs_at, replaced, replaced_from};
use vstd::prelude::*;

verus! {

// Sums

/// A cell shows its value, and names it behind it.
pub proof fn law_cell_shows_its_value(v: Seq<char>, dot: Seq<char>, label: Seq<char>)
    ensures
        has_text(
            kpi_cell(v, dot, label),
            "<div class=\"ok\"><div class=\"okv tabnum\">"@ + v
                + "</div><div class=\"okl\"><i class=\"kdot "@,
        ),
        has_text(
            kpi_cell(v, dot, label),
            "</div><div class=\"okl\"><i class=\"kdot "@ + dot + "\"></i>"@,
        ),
        has_text(kpi_cell(v, dot, label), "\"></i>"@ + label + "</div></div>"@),
{
    reveal_strlit("<div class=\"ok\"><div class=\"okv tabnum\">");
    reveal_strlit("</div><div class=\"okl\"><i class=\"kdot ");
    reveal_strlit("\"></i>");
    reveal_strlit("</div></div>");
    reveal_strlit(
        "<div class=\"ok\"><div class=\"okv tabnum\">{}</div><div class=\"okl\"><i class=\"kdot {}\"></i>{}</div></div>",
    );
    let pieces = seq![
        "<div class=\"ok\"><div class=\"okv tabnum\">"@,
        "</div><div class=\"okl\"><i class=\"kdot "@,
        "\"></i>"@,
        "</div></div>"@,
    ];
    let texts = seq![
        v,
        dot,
        label,
    ];
    let hole = seq!['{', '}'];
    let template = pieces[0] + hole + (pieces[1] + hole + (pieces[2] + hole + pieces[3]));
    assert("<div class=\"ok\"><div class=\"okv tabnum\">{}</div><div class=\"okl\"><i class=\"kdot {}\"></i>{}</div></div>"@
        =~= template);
    reveal_with_fuel(with_holes, 4);
    assert(with_holes(pieces) == template);
    assert forall|i: int| 0 <= i < pieces.len() implies has_no_hole(#[trigger] pieces[i]) by {}
    law_holes_take_their_texts(pieces, texts);
    assert(kpi_cell(v, dot, label) == woven(pieces, texts));
    law_text_stands_between_its_pieces(pieces, texts, 0);
    assert(pieces[0] + texts[0] + pieces[1]
        =~= "<div class=\"ok\"><div class=\"okv tabnum\">"@ + v
        + "</div><div class=\"okl\"><i class=\"kdot "@);
    law_text_stands_between_its_pieces(pieces, texts, 1);
    assert(pieces[1] + texts[1] + pieces[2]
        =~= "</div><div class=\"okl\"><i class=\"kdot "@ + dot + "\"></i>"@);
    law_text_stands_between_its_pieces(pieces, texts, 2);
    assert(pieces[2] + texts[2] + pieces[3] =~= "\"></i>"@ + label + "</div></div>"@);
}

/// A cell of a card shows its value, and names it behind it.
pub proof fn law_small_cell_shows_its_value(v: Seq<char>, label: Seq<char>)
    ensures
        has_text(
            kpi_of(v, label),
            "<div class=\"cc-k\"><div class=\"cc-kv\">"@ + v + "</div><div class=\"cc-kl\">"@,
        ),
        has_text(kpi_of(v, label), "</div><div class=\"cc-kl\">"@ + label + "</div></div>"@),
{
    reveal_strlit("<div class=\"cc-k\"><div class=\"cc-kv\">");
    reveal_strlit("</div><div class=\"cc-kl\">");
    reveal_strlit("</div></div>");
    reveal_strlit(
        "<div class=\"cc-k\"><div class=\"cc-kv\">{}</div><div class=\"cc-kl\">{}</div></div>",
    );
    let pieces = seq![
        "<div class=\"cc-k\"><div class=\"cc-kv\">"@,
        "</div><div class=\"cc-kl\">"@,
        "</div></div>"@,
    ];
    let texts = seq![
        v,
        label,
    ];
    let hole = seq!['{', '}'];
    let template = pieces[0] + hole + (pieces[1] + hole + pieces[2]);
    assert("<div class=\"cc-k\"><div class=\"cc-kv\">{}</div><div class=\"cc-kl\">{}</div></div>"@
        =~= template);
    reveal_with_fuel(with_holes, 3);
    assert(with_holes(pieces) == template);
    assert forall|i: int| 0 <= i < pieces.len() implies has_no_hole(#[trigger] pieces[i]) by {}
    law_holes_take_their_texts(pieces, texts);
    assert(kpi_of(v, label) == woven(pieces, texts));
    law_text_stands_between_its_pieces(pieces, texts, 0);
    assert(pieces[0] + texts[0] + pieces[1]
        =~= "<div class=\"cc-k\"><div class=\"cc-kv\">"@ + v + "</div><div class=\"cc-kl\">"@);
    law_text_stands_between_its_pieces(pieces, texts, 1);
    assert(pieces[1] + texts[1] + pieces[2]
        =~= "</div><div class=\"cc-kl\">"@ + label + "</div></div>"@);
}

proof fn lemma_flat_10(parts: Seq<Seq<char>>)
    requires
        parts.len() == 10,
    ensures
        flat(parts) == parts[0] + parts[1] + parts[2] + parts[3] + parts[4] + parts[5] + parts[6] + parts[7] + parts[8] + parts[9],
{
    reveal_with_fuel(flat, 11);
    assert(Seq::<char>::empty() + parts[0] =~= parts[0]);
}

/// Every sum is shown under its name: those of the ads as such, and those of the CRM as such.
pub proof fn law_sums_are_shown(k: Kpis, f: KpiShown)
    ensures
        has_text(kpi_cells_of(k, f), kpi_cell(rupees_of(f.spend), "m"@, "spend"@)),
        has_text(kpi_cells_of(k, f), kpi_cell(grouped(dec(k.impressions as nat)), "m"@, "impr"@)),
        has_text(kpi_cells_of(k, f), kpi_cell(dec(k.funnel.m_leads as nat), "m"@, "M-Leads"@)),
        has_text(
            kpi_cells_of(k, f),
            kpi_cell(cost_of(k.funnel.m_leads as nat, f.cpl), "m"@, "CPL"@),
        ),
        has_text(kpi_cells_of(k, f), kpi_cell(rate_of(k.impressions as nat, f.ctr@), "m"@, "CTR"@)),
        has_text(kpi_cells_of(k, f), kpi_cell(dec(k.funnel.l_leads as nat), "c"@, "L-Leads"@)),
        has_text(kpi_cells_of(k, f), kpi_cell(dec(k.funnel.qualified as nat), "c"@, "Qualified"@)),
        has_text(kpi_cells_of(k, f), kpi_cell(dec(k.funnel.visit as nat), "c"@, "Visits"@)),
        has_text(kpi_cells_of(k, f), kpi_cell(dec(k.funnel.booking as nat), "c"@, "Bookings"@)),
        k.unattributed_l_leads > 0 ==> has_text(
            kpi_cells_of(k, f),
            kpi_cell(dec(k.unattributed_l_leads as nat), "c"@, "unattributed L"@),
        ),
{
    let parts = seq![
        kpi_cell(rupees_of(f.spend), "m"@, "spend"@),
        kpi_cell(grouped(dec(k.impressions as nat)), "m"@, "impr"@),
        kpi_cell(dec(k.funnel.m_leads as nat), "m"@, "M-Leads"@),
        kpi_cell(cost_of(k.funnel.m_leads as nat, f.cpl), "m"@, "CPL"@),
        kpi_cell(rate_of(k.impressions as nat, f.ctr@), "m"@, "CTR"@),
        kpi_cell(dec(k.funnel.l_leads as nat), "c"@, "L-Leads"@),
        kpi_cell(dec(k.funnel.qualified as nat), "c"@, "Qualified"@),
        kpi_cell(dec(k.funnel.visit as nat), "c"@, "Visits"@),
        kpi_cell(dec(k.funnel.booking as nat), "c"@, "Bookings"@),
        if k.unattributed_l_leads > 0 {
            kpi_cell(dec(k.unattributed_l_leads as nat), "c"@, "unattributed L"@)
        } else {
            Seq::empty()
        },
    ];
    lemma_flat_10(parts);
    lemma_flat_shows(parts, 0);
    lemma_flat_shows(parts, 1);
    lemma_flat_shows(parts, 2);
    lemma_flat_shows(parts, 3);
    lemma_flat_shows(parts, 4);
    lemma_flat_shows(parts, 5);
    lemma_flat_shows(parts, 6);
    lemma_flat_shows(parts, 7);
    lemma_flat_shows(parts, 8);
    lemma_flat_shows(parts, 9);
}

/// Nothing costs nothing: what is one of none is shown as a dash, and anything else as it is.
pub proof fn law_none_has_no_price(n: nat, cost: u64, rate: Seq<char>)
    ensures
        cost_of(0, cost) == "-"@ && rate_of(0, rate) == "-"@,
        n > 0 ==> cost_of(n, cost) == "\u{20B9}"@ + grouped(dec(cost as nat)) && rate_of(n, rate) == rate,
{
}

// Funnels

/// A bar names its step, is as wide as is said, shows its count, and has the color of the ads where
/// it is the step of their leads, and else that of the CRM.
pub proof fn law_bar_shows_its_step(s: (Seq<char>, nat), i: int, width: Seq<char>)
    ensures
        has_text(
            bar_of(s, i, width),
            "<div class=\"hf-row\"><span class=\"hf-lab\">"@ + esc_of(s.0)
                + "</span><span class=\"hf-track\"><span class=\"hf-bar\" style=\"width:"@,
        ),
        has_text(
            bar_of(s, i, width),
            "</span><span class=\"hf-track\"><span class=\"hf-bar\" style=\"width:"@ + width
                + "%;background:"@,
        ),
        i == 2 ==> has_text(
            bar_of(s, i, width),
            "%;background:"@ + "var(--meta)"@ + "\"></span></span><span class=\"hf-v\">"@,
        ),
        i != 2 ==> has_text(
            bar_of(s, i, width),
            "%;background:"@ + "var(--crm)"@ + "\"></span></span><span class=\"hf-v\">"@,
        ),
        has_text(
            bar_of(s, i, width),
            "\"></span></span><span class=\"hf-v\">"@ + dec(s.1) + "</span></div>"@,
        ),
{
    reveal_strlit("<div class=\"hf-row\"><span class=\"hf-lab\">");
    reveal_strlit("</span><span class=\"hf-track\"><span class=\"hf-bar\" style=\"width:");
    reveal_strlit("%;background:");
    reveal_strlit("\"></span></span><span class=\"hf-v\">");
    reveal_strlit("</span></div>");
    reveal_strlit(
        "<div class=\"hf-row\"><span class=\"hf-lab\">{}</span><span class=\"hf-track\"><span class=\"hf-bar\" style=\"width:{}%;background:{}\"></span></span><span class=\"hf-v\">{}</span></div>",
    );
    let pieces = seq![
        "<div class=\"hf-row\"><span class=\"hf-lab\">"@,
        "</span><span class=\"hf-track\"><span class=\"hf-bar\" style=\"width:"@,
        "%;background:"@,
        "\"></span></span><span class=\"hf-v\">"@,
        "</span></div>"@,
    ];
    let texts = seq![
        esc_of(s.0),
        width,
        if i == 2 {
            "var(--meta)"@
        } else {
            "var(--crm)"@
        },
        dec(s.1),
    ];
    let hole = seq!['{', '}'];
    let template = pieces[0] + hole
        + (pieces[1] + hole + (pieces[2] + hole + (pieces[3] + hole + pieces[4])));
    assert("<div class=\"hf-row\"><span class=\"hf-lab\">{}</span><span class=\"hf-track\"><span class=\"hf-bar\" style=\"width:{}%;background:{}\"></span></span><span class=\"hf-v\">{}</span></div>"@
        =~= template);
    reveal_with_fuel(with_holes, 5);
    assert(with_holes(pieces) == template);
    assert forall|i: int| 0 <= i < pieces.len() implies has_no_hole(#[trigger] pieces[i]) by {}
    law_holes_take_their_texts(pieces, texts);
    assert(bar_of(s, i, width) == woven(pieces, texts));
    law_text_stands_between_its_pieces(pieces, texts, 0);
    assert(pieces[0] + texts[0] + pieces[1]
        =~= "<div class=\"hf-row\"><span class=\"hf-lab\">"@ + esc_of(s.0)
        + "</span><span class=\"hf-track\"><span class=\"hf-bar\" style=\"width:"@);
    law_text_stands_between_its_pieces(pieces, texts, 1);
    assert(pieces[1] + texts[1] + pieces[2]
        =~= "</span><span class=\"hf-track\"><span class=\"hf-bar\" style=\"width:"@ + width
        + "%;background:"@);
    law_text_stands_between_its_pieces(pieces, texts, 2);
    if i == 2 {
        assert(pieces[2] + texts[2] + pieces[3]
            =~= "%;background:"@ + "var(--meta)"@ + "\"></span></span><span class=\"hf-v\">"@);
    }
    law_text_stands_between_its_pieces(pieces, texts, 2);
    if i != 2 {
        assert(pieces[2] + texts[2] + pieces[3]
            =~= "%;background:"@ + "var(--crm)"@ + "\"></span></span><span class=\"hf-v\">"@);
    }
    law_text_stands_between_its_pieces(pieces, texts, 3);
    assert(pieces[3] + texts[3] + pieces[4]
        =~= "\"></span></span><span class=\"hf-v\">"@ + dec(s.1) + "</span></div>"@);
}

/// Every step from the leads on has its bar.
pub proof fn law_every_step_has_its_bar(
    funnel: Seq<(Seq<char>, nat)>,
    bars: Seq<String>,
    n: int,
    i: int,
)
    requires
        2 <= i < n,
    ensures
        has_text(bars_of(funnel, bars, n), bar_of(funnel[i], i, bar_at(bars, i - 2))),
        n == funnel.len() ==> has_text(
            funnel_bars_of(funnel, bars),
            bar_of(funnel[i], i, bar_at(bars, i - 2)),
        ),
    decreases n,
{
    let none = Seq::<char>::empty();
    let bar = bar_of(funnel[i], i, bar_at(bars, i - 2));
    let ahead = bars_of(funnel, bars, n - 1);
    let all = bars_of(funnel, bars, n);
    let last = bar_of(funnel[n - 1], n - 1, bar_at(bars, n - 3));
    if i == n - 1 {
        assert(all =~= ahead + bar + none);
        lemma_shows_itself(ahead, bar, none);
    } else {
        law_every_step_has_its_bar(funnel, bars, n - 1, i);
        assert(all =~= none + ahead + last);
        lemma_part_shows(all, none, ahead, last, bar);
    }
    if n == funnel.len() {
        lemma_part_shows(
            funnel_bars_of(funnel, bars),
            "<div class=\"hfunnel\">"@,
            all,
            "</div>"@,
            bar,
        );
    }
}

// Cards

spec fn card_pieces() -> Seq<Seq<char>> {
    seq![
        "<div class=\"ccard\" id=\"c-"@,
        "-"@,
        "\"><div class=\"cc-fig\"><span class=\"crank\">"@,
        "</span>"@,
        Seq::empty(),
        "</div><div class=\"cc-body\"><div class=\"cc-name\" title=\""@,
        "\">"@,
        "</div><div class=\"cc-camp\">"@,
        "</div><div class=\"cc-kpis\">"@,
        Seq::empty(),
        Seq::empty(),
        Seq::empty(),
        "</div>"@,
        "<div class=\"cc-meta\"><span class=\"stx "@,
        "\">"@,
        "</span><span>"@,
        " ad(s)"@,
        "</span></div>"@,
        "</div></div>"@,
    ]
}

proof fn lemma_card_template(texts: Seq<Seq<char>>)
    requires
        texts.len() == 18,
    ensures
        filled(
            "<div class=\"ccard\" id=\"c-{}-{}\"><div class=\"cc-fig\"><span class=\"crank\">{}</span>{}{}</div><div class=\"cc-body\"><div class=\"cc-name\" title=\"{}\">{}</div><div class=\"cc-camp\">{}</div><div class=\"cc-kpis\">{}{}{}{}</div>{}<div class=\"cc-meta\"><span class=\"stx {}\">{}</span><span>{} ad(s){}</span></div>{}</div></div>"@,
            texts,
        ) == woven(card_pieces(), texts),
{
    reveal_strlit("<div class=\"ccard\" id=\"c-");
    reveal_strlit("-");
    reveal_strlit("\"><div class=\"cc-fig\"><span class=\"crank\">");
    reveal_strlit("</span>");
    reveal_strlit("</div><div class=\"cc-body\"><div class=\"cc-name\" title=\"");
    reveal_strlit("\">");
    reveal_strlit("</div><div class=\"cc-camp\">");
    reveal_strlit("</div><div class=\"cc-kpis\">");
    reveal_strlit("</div>");
    reveal_strlit("<div class=\"cc-meta\"><span class=\"stx ");
    reveal_strlit("</span><span>");
    reveal_strlit(" ad(s)");
    reveal_strlit("</span></div>");
    reveal_strlit("</div></div>");
    reveal_strlit(
        "<div class=\"ccard\" id=\"c-{}-{}\"><div class=\"cc-fig\"><span class=\"crank\">{}</span>{}{}</div><div class=\"cc-body\"><div class=\"cc-name\" title=\"{}\">{}</div><div class=\"cc-camp\">{}</div><div class=\"cc-kpis\">{}{}{}{}</div>{}<div class=\"cc-meta\"><span class=\"stx {}\">{}</span><span>{} ad(s){}</span></div>{}</div></div>",
    );
    let pieces = card_pieces();
    let hole = seq!['{', '}'];
    let template = pieces[0] + hole
        + (pieces[1] + hole + (pieces[2] + hole + (pieces[3] + hole + (pieces[4] + hole + (pieces[5] + hole + (pieces[6] + hole + (pieces[7] + hole + (pieces[8] + hole + (pieces[9] + hole + (pieces[10] + hole + (pieces[11] + hole + (pieces[12] + hole + (pieces[13] + hole + (pieces[14] + hole + (pieces[15] + hole + (pieces[16] + hole + (pieces[17] + hole + pieces[18])))))))))))))))));
    assert("<div class=\"ccard\" id=\"c-{}-{}\"><div class=\"cc-fig\"><span class=\"crank\">{}</span>{}{}</div><div class=\"cc-body\"><div class=\"cc-name\" title=\"{}\">{}</div><div class=\"cc-camp\">{}</div><div class=\"cc-kpis\">{}{}{}{}</div>{}<div class=\"cc-meta\"><span class=\"stx {}\">{}</span><span>{} ad(s){}</span></div>{}</div></div>"@
        =~= template);
    reveal_with_fuel(with_holes, 19);
    assert(with_holes(pieces) == template);
    assert forall|i: int| 0 <= i < pieces.len() implies has_no_hole(#[trigger] pieces[i]) by {}
    law_holes_take_their_texts(pieces, texts);
}

spec fn card_texts(rank: nat, pslug: Seq<char>, c: CardV, f: CardShown) -> Seq<Seq<char>> {
    seq![
        pslug,
        dec(rank),
        dec(rank),
        if c.is_video {
            "<span class=\"vtag\">VIDEO</span>"@
        } else {
            ""@
        },
        image_html(f.image),
        esc_of(c.display_name),
        esc_of(c.display_name),
        esc_of(joined(c.campaigns, " / "@)),
        kpi_of(rupees_of(f.spend), "spend"@),
        kpi_of(grouped(dec(c.delivery.sum.impressions)), "impr"@),
        kpi_of(cost_of(c.delivery.sum.m_leads, f.cpl), "cpl"@),
        kpi_of(rate_of(c.delivery.sum.impressions, f.ctr@), "ctr"@),
        funnel_bars_of(c.funnel, f.bars@),
        status_class_of(c.status.code),
        esc_of(c.status.label),
        dec(c.ad_ids.len()),
        match c.created {
            Some(d) => " &middot; since "@ + esc_of(d),
            None => ""@,
        },
        targeting_chips_of(c.targetings),
    ]
}

proof fn lemma_card_is_woven(rank: nat, pslug: Seq<char>, c: CardV, f: CardShown)
    ensures
        card_html(rank, pslug, c, f) == woven(card_pieces(), card_texts(rank, pslug, c, f)),
{
    lemma_card_template(card_texts(rank, pslug, c, f));
}

/// A card shows its rank, its image, its name and its campaigns, and that it is a video just where
/// it is one.
pub proof fn law_card_is_named(rank: nat, pslug: Seq<char>, c: CardV, f: CardShown)
    ensures
        has_text(card_html(rank, pslug, c, f), "<div class=\"ccard\" id=\"c-"@ + pslug + "-"@),
        has_text(
            card_html(rank, pslug, c, f),
            "-"@ + dec(rank) + "\"><div class=\"cc-fig\"><span class=\"crank\">"@,
        ),
        has_text(
            card_html(rank, pslug, c, f),
            "\"><div class=\"cc-fig\"><span class=\"crank\">"@ + dec(rank) + "</span>"@,
        ),
        c.is_video ==> has_text(
            card_html(rank, pslug, c, f),
            "</span>"@ + "<span class=\"vtag\">VIDEO</span>"@,
        ),
        has_text(
            card_html(rank, pslug, c, f),
            image_html(f.image) + "</div><div class=\"cc-body\"><div class=\"cc-name\" title=\""@,
        ),
        has_text(
            card_html(rank, pslug, c, f),
            "</div><div class=\"cc-body\"><div class=\"cc-name\" title=\""@
                + esc_of(c.display_name) + "\">"@,
        ),
        has_text(
            card_html(rank, pslug, c, f),
            "\">"@ + esc_of(c.display_name) + "</div><div class=\"cc-camp\">"@,
        ),
        has_text(
            card_html(rank, pslug, c, f),
            "</div><div class=\"cc-camp\">"@ + esc_of(joined(c.campaigns, " / "@))
                + "</div><div class=\"cc-kpis\">"@,
        ),
{
    lemma_card_is_woven(rank, pslug, c, f);
    let pieces = card_pieces();
    let texts = card_texts(rank, pslug, c, f);
    law_text_stands_between_its_pieces(pieces, texts, 0);
    assert(pieces[0] + texts[0] + pieces[1] =~= "<div class=\"ccard\" id=\"c-"@ + pslug + "-"@);
    law_text_stands_between_its_pieces(pieces, texts, 1);
    assert(pieces[1] + texts[1] + pieces[2]
        =~= "-"@ + dec(rank) + "\"><div class=\"cc-fig\"><span class=\"crank\">"@);
    law_text_stands_between_its_pieces(pieces, texts, 2);
    assert(pieces[2] + texts[2] + pieces[3]
        =~= "\"><div class=\"cc-fig\"><span class=\"crank\">"@ + dec(rank) + "</span>"@);
    law_text_stands_between_its_pieces(pieces, texts, 3);
    if c.is_video {
        assert(pieces[3] + texts[3] + pieces[4]
            =~= "</span>"@ + "<span class=\"vtag\">VIDEO</span>"@);
    }
    law_text_stands_between_its_pieces(pieces, texts, 4);
    assert(pieces[4] + texts[4] + pieces[5]
        =~= image_html(f.image) + "</div><div class=\"cc-body\"><div class=\"cc-name\" title=\""@);
    law_text_stands_between_its_pieces(pieces, texts, 5);
    assert(pieces[5] + texts[5] + pieces[6]
        =~= "</div><div class=\"cc-body\"><div class=\"cc-name\" title=\""@
        + esc_of(c.display_name) + "\">"@);
    law_text_stands_between_its_pieces(pieces, texts, 6);
    assert(pieces[6] + texts[6] + pieces[7]
        =~= "\">"@ + esc_of(c.display_name) + "</div><div class=\"cc-camp\">"@);
    law_text_stands_between_its_pieces(pieces, texts, 7);
    assert(pieces[7] + texts[7] + pieces[8]
        =~= "</div><div class=\"cc-camp\">"@ + esc_of(joined(c.campaigns, " / "@))
        + "</div><div class=\"cc-kpis\">"@);
}

/// A card shows what it cost, how often it was seen, what a lead costs, how often it was clicked,
/// and its funnel.
pub proof fn law_card_shows_what_it_brought(rank: nat, pslug: Seq<char>, c: CardV, f: CardShown)
    ensures
        has_text(
            card_html(rank, pslug, c, f),
            "</div><div class=\"cc-kpis\">"@ + kpi_of(rupees_of(f.spend), "spend"@),
        ),
        has_text(
            card_html(rank, pslug, c, f),
            kpi_of(grouped(dec(c.delivery.sum.impressions)), "impr"@),
        ),
        has_text(
            card_html(rank, pslug, c, f),
            kpi_of(cost_of(c.delivery.sum.m_leads, f.cpl), "cpl"@),
        ),
        has_text(
            card_html(rank, pslug, c, f),
            kpi_of(rate_of(c.delivery.sum.impressions, f.ctr@), "ctr"@) + "</div>"@,
        ),
        has_text(
            card_html(rank, pslug, c, f),
            "</div>"@ + funnel_bars_of(c.funnel, f.bars@)
                + "<div class=\"cc-meta\"><span class=\"stx "@,
        ),
{
    lemma_card_is_woven(rank, pslug, c, f);
    let pieces = card_pieces();
    let texts = card_texts(rank, pslug, c, f);
    law_text_stands_between_its_pieces(pieces, texts, 8);
    assert(pieces[8] + texts[8] + pieces[9]
        =~= "</div><div class=\"cc-kpis\">"@ + kpi_of(rupees_of(f.spend), "spend"@));
    law_text_stands_between_its_pieces(pieces, texts, 9);
    assert(pieces[9] + texts[9] + pieces[10]
        =~= kpi_of(grouped(dec(c.delivery.sum.impressions)), "impr"@));
    law_text_stands_between_its_pieces(pieces, texts, 10);
    assert(pieces[10] + texts[10] + pieces[11]
        =~= kpi_of(cost_of(c.delivery.sum.m_leads, f.cpl), "cpl"@));
    law_text_stands_between_its_pieces(pieces, texts, 11);
    assert(pieces[11] + texts[11] + pieces[12]
        =~= kpi_of(rate_of(c.delivery.sum.impressions, f.ctr@), "ctr"@) + "</div>"@);
    law_text_stands_between_its_pieces(pieces, texts, 12);
    assert(pieces[12] + texts[12] + pieces[13]
        =~= "</div>"@ + funnel_bars_of(c.funnel, f.bars@)
        + "<div class=\"cc-meta\"><span class=\"stx "@);
}

/// A card shows its status, how many ads it has, since when it is there, and its targetings.
pub proof fn law_card_shows_how_it_stands(rank: nat, pslug: Seq<char>, c: CardV, f: CardShown)
    ensures
        has_text(
            card_html(rank, pslug, c, f),
            "<div class=\"cc-meta\"><span class=\"stx "@ + status_class_of(c.status.code) + "\">"@,
        ),
        has_text(card_html(rank, pslug, c, f), "\">"@ + esc_of(c.status.label) + "</span><span>"@),
        has_text(card_html(rank, pslug, c, f), "</span><span>"@ + dec(c.ad_ids.len()) + " ad(s)"@),
        c.created is Some ==> has_text(
            card_html(rank, pslug, c, f),
            " ad(s)"@ + (" &middot; since "@ + esc_of(c.created->0)) + "</span></div>"@,
        ),
        has_text(
            card_html(rank, pslug, c, f),
            "</span></div>"@ + targeting_chips_of(c.targetings) + "</div></div>"@,
        ),
{
    lemma_card_is_woven(rank, pslug, c, f);
    let pieces = card_pieces();
    let texts = card_texts(rank, pslug, c, f);
    law_text_stands_between_its_pieces(pieces, texts, 13);
    assert(pieces[13] + texts[13] + pieces[14]
        =~= "<div class=\"cc-meta\"><span class=\"stx "@ + status_class_of(c.status.code) + "\">"@);
    law_text_stands_between_its_pieces(pieces, texts, 14);
    assert(pieces[14] + texts[14] + pieces[15]
        =~= "\">"@ + esc_of(c.status.label) + "</span><span>"@);
    law_text_stands_between_its_pieces(pieces, texts, 15);
    assert(pieces[15] + texts[15] + pieces[16]
        =~= "</span><span>"@ + dec(c.ad_ids.len()) + " ad(s)"@);
    law_text_stands_between_its_pieces(pieces, texts, 16);
    if c.created is Some {
        assert(pieces[16] + texts[16] + pieces[17]
            =~= " ad(s)"@ + (" &middot; since "@ + esc_of(c.created->0)) + "</span></div>"@);
    }
    law_text_stands_between_its_pieces(pieces, texts, 17);
    assert(pieces[17] + texts[17] + pieces[18]
        =~= "</span></div>"@ + targeting_chips_of(c.targetings) + "</div></div>"@);
}

/// The cards of a product have the ranks of their places, counted from one.
pub proof fn law_cards_have_their_rank(
    pslug: Seq<char>,
    cards: Seq<CardV>,
    shown: Seq<CardShown>,
    n: nat,
    i: int,
)
    requires
        0 <= i < n,
    ensures
        has_text(
            cards_html(pslug, cards, shown, n),
            card_html((i + 1) as nat, pslug, cards[i], shown[i]),
        ),
    decreases n,
{
    let none = Seq::<char>::empty();
    let card = card_html((i + 1) as nat, pslug, cards[i], shown[i]);
    let ahead = cards_html(pslug, cards, shown, (n - 1) as nat);
    let all = cards_html(pslug, cards, shown, n);
    let last = card_html(n, pslug, cards[n - 1], shown[n - 1]);
    if i == n - 1 {
        assert(all =~= ahead + card + none);
        lemma_shows_itself(ahead, card, none);
    } else {
        law_cards_have_their_rank(pslug, cards, shown, (n - 1) as nat, i);
        assert(all =~= none + ahead + last);
        lemma_part_shows(all, none, ahead, last, card);
    }
}

/// Each kind of status has a class of its own.
pub proof fn law_statuses_have_their_class(code: StatusCode)
    ensures
        code == StatusCode::Live ==> status_class_of(code) == "st-live"@,
        code == StatusCode::Learn ==> status_class_of(code) == "st-learn"@,
        code == StatusCode::Stop ==> status_class_of(code) == "st-stop"@,
{
}

/// An image stands in the page as its bytes, with its kind; where there is none, that is said.
pub proof fn law_image_is_embedded(e: Embedded)
    ensures
        has_text(image_html(Some(e)), "<img src=\"data:"@ + e.mime@ + ";base64,"@),
        has_text(
            image_html(Some(e)),
            ";base64,"@ + b64_of(e.bytes@) + "\" alt=\"\" loading=\"lazy\">"@,
        ),
        image_html(None) == "<div class=\"noimg\">no preview</div>"@,
{
    reveal_strlit("<img src=\"data:");
    reveal_strlit(";base64,");
    reveal_strlit("\" alt=\"\" loading=\"lazy\">");
    reveal_strlit(
        "<img src=\"data:{};base64,{}\" alt=\"\" loading=\"lazy\">",
    );
    let pieces = seq![
        "<img src=\"data:"@,
        ";base64,"@,
        "\" alt=\"\" loading=\"lazy\">"@,
    ];
    let texts = seq![
        e.mime@,
        b64_of(e.bytes@),
    ];
    let hole = seq!['{', '}'];
    let template = pieces[0] + hole + (pieces[1] + hole + pieces[2]);
    assert("<img src=\"data:{};base64,{}\" alt=\"\" loading=\"lazy\">"@
        =~= template);
    reveal_with_fuel(with_holes, 3);
    assert(with_holes(pieces) == template);
    assert forall|i: int| 0 <= i < pieces.len() implies has_no_hole(#[trigger] pieces[i]) by {}
    law_holes_take_their_texts(pieces, texts);
    assert(image_html(Some(e)) == woven(pieces, texts));
    law_text_stands_between_its_pieces(pieces, texts, 0);
    assert(pieces[0] + texts[0] + pieces[1] =~= "<img src=\"data:"@ + e.mime@ + ";base64,"@);
    law_text_stands_between_its_pieces(pieces, texts, 1);
    assert(pieces[1] + texts[1] + pieces[2]
        =~= ";base64,"@ + b64_of(e.bytes@) + "\" alt=\"\" loading=\"lazy\">"@);
}

/// A card shows its first four targetings, each with its leads, and no more.
pub proof fn law_first_targetings_are_shown(t: Seq<BreakdownV>, i: int)
    requires
        0 <= i < t.len(),
        i < 4,
    ensures
        has_text(
            targeting_chips_of(t),
            "<span class=\"capi-chip\">"@ + esc_of(t[i].targeting) + "<b>"@ + dec(
                t[i].delivery.sum.m_leads,
            ) + "</b>M</span>"@,
        ),
        t.len() >= 4 ==> targeting_chips_of(t) == targeting_chips_of(t.take(4)),
{
    reveal_strlit("<span class=\"capi-chip\">");
    reveal_strlit("<b>");
    reveal_strlit("</b>M</span>");
    reveal_strlit("<span class=\"capi-chip\">{}<b>{}</b>M</span>");
    let hole = seq!['{', '}'];
    assert("<span class=\"capi-chip\">{}<b>{}</b>M</span>"@ =~= "<span class=\"capi-chip\">"@ + hole + (
    "<b>"@ + hole + "</b>M</span>"@));
    crate::report::markup::lemma_two_holes(
        "<span class=\"capi-chip\">{}<b>{}</b>M</span>"@,
        "<span class=\"capi-chip\">"@,
        "<b>"@,
        "</b>M</span>"@,
        esc_of(t[i].targeting),
        dec(t[i].delivery.sum.m_leads),
    );
    let n = if t.len() < 4 {
        t.len() as int
    } else {
        4
    };
    lemma_chip(t, n, i);
    lemma_part_shows(
        targeting_chips_of(t),
        "<div class=\"capirow\">"@,
        chips_of(t, n),
        "</div>"@,
        "<span class=\"capi-chip\">"@ + esc_of(t[i].targeting) + "<b>"@ + dec(
            t[i].delivery.sum.m_leads,
        ) + "</b>M</span>"@,
    );
    if t.len() >= 4 {
        lemma_same_chips(t, t.take(4), 4);
    }
}

proof fn lemma_chip(t: Seq<BreakdownV>, n: int, i: int)
    requires
        0 <= i < n,
    ensures
        has_text(
            chips_of(t, n),
            filled(
                "<span class=\"capi-chip\">{}<b>{}</b>M</span>"@,
                seq![esc_of(t[i].targeting), dec(t[i].delivery.sum.m_leads)],
            ),
        ),
    decreases n,
{
    let none = Seq::<char>::empty();
    let chip = filled(
        "<span class=\"capi-chip\">{}<b>{}</b>M</span>"@,
        seq![esc_of(t[i].targeting), dec(t[i].delivery.sum.m_leads)],
    );
    let ahead = chips_of(t, n - 1);
    let all = chips_of(t, n);
    if i == n - 1 {
        assert(all =~= ahead + chip + none);
        lemma_shows_itself(ahead, chip, none);
    } else {
        lemma_chip(t, n - 1, i);
        let last = filled(
            "<span class=\"capi-chip\">{}<b>{}</b>M</span>"@,
            seq![esc_of(t[n - 1].targeting), dec(t[n - 1].delivery.sum.m_leads)],
        );
        assert(all =~= none + ahead + last);
        lemma_part_shows(all, none, ahead, last, chip);
    }
}

proof fn lemma_same_chips(a: Seq<BreakdownV>, b: Seq<BreakdownV>, n: int)
    requires
        forall|i: int| 0 <= i < n ==> #[trigger] a[i] == b[i],
    ensures
        chips_of(a, n) == chips_of(b, n),
    decreases n,
{
    if n > 0 {
        lemma_same_chips(a, b, n - 1);
        assert(a[n - 1] == b[n - 1]);
    }
}

// The page

/// What stands ahead of the cards of a section.
spec fn section_head(p: SectionV, report_date: Seq<char>, f: SectionShown) -> Seq<char> {
    filled(
        "<div class=\"pblock\" id=\"p-{}\"><section><div class=\"seckick\">{}</div><h2>{}</h2><div class=\"okpis\">{}</div>{}<div class=\"cboard\">"@,
        seq![
            slug_of(p.product),
            esc_of(p.product),
            esc_of(p.product),
            kpi_cells_of(f.kpis, f.figures),
            table_html(p, f.cards@, report_date),
        ],
    )
}

/// A section is found under the anchor of its product, names it, and shows its sums and the table
/// of its cards.
pub proof fn law_section_shows_its_product(p: SectionV, report_date: Seq<char>, f: SectionShown)
    ensures
        has_text(
            section_html(p, report_date, f),
            "<div class=\"pblock\" id=\"p-"@ + slug_of(p.product)
                + "\"><section><div class=\"seckick\">"@,
        ),
        has_text(
            section_html(p, report_date, f),
            "\"><section><div class=\"seckick\">"@ + esc_of(p.product) + "</div><h2>"@,
        ),
        has_text(
            section_html(p, report_date, f),
            "</div><h2>"@ + esc_of(p.product) + "</h2><div class=\"okpis\">"@,
        ),
        has_text(
            section_html(p, report_date, f),
            "</h2><div class=\"okpis\">"@ + kpi_cells_of(f.kpis, f.figures) + "</div>"@,
        ),
        has_text(
            section_html(p, report_date, f),
            "</div>"@ + table_html(p, f.cards@, report_date) + "<div class=\"cboard\">"@,
        ),
{
    reveal_strlit("<div class=\"pblock\" id=\"p-");
    reveal_strlit("\"><section><div class=\"seckick\">");
    reveal_strlit("</div><h2>");
    reveal_strlit("</h2><div class=\"okpis\">");
    reveal_strlit("</div>");
    reveal_strlit("<div class=\"cboard\">");
    reveal_strlit(
        "<div class=\"pblock\" id=\"p-{}\"><section><div class=\"seckick\">{}</div><h2>{}</h2><div class=\"okpis\">{}</div>{}<div class=\"cboard\">",
    );
    let pieces = seq![
        "<div class=\"pblock\" id=\"p-"@,
        "\"><section><div class=\"seckick\">"@,
        "</div><h2>"@,
        "</h2><div class=\"okpis\">"@,
        "</div>"@,
        "<div class=\"cboard\">"@,
    ];
    let texts = seq![
        slug_of(p.product),
        esc_of(p.product),
        esc_of(p.product),
        kpi_cells_of(f.kpis, f.figures),
        table_html(p, f.cards@, report_date),
    ];
    let hole = seq!['{', '}'];
    let template = pieces[0] + hole
        + (pieces[1] + hole + (pieces[2] + hole + (pieces[3] + hole + (pieces[4] + hole + pieces[5]))));
    assert("<div class=\"pblock\" id=\"p-{}\"><section><div class=\"seckick\">{}</div><h2>{}</h2><div class=\"okpis\">{}</div>{}<div class=\"cboard\">"@
        =~= template);
    reveal_with_fuel(with_holes, 6);
    assert(with_holes(pieces) == template);
    assert forall|i: int| 0 <= i < pieces.len() implies has_no_hole(#[trigger] pieces[i]) by {}
    law_holes_take_their_texts(pieces, texts);
    assert(section_head(p, report_date, f) == woven(pieces, texts));
    law_text_stands_between_its_pieces(pieces, texts, 0);
    assert(pieces[0] + texts[0] + pieces[1]
        =~= "<div class=\"pblock\" id=\"p-"@ + slug_of(p.product)
        + "\"><section><div class=\"seckick\">"@);
    law_text_stands_between_its_pieces(pieces, texts, 1);
    assert(pieces[1] + texts[1] + pieces[2]
        =~= "\"><section><div class=\"seckick\">"@ + esc_of(p.product) + "</div><h2>"@);
    law_text_stands_between_its_pieces(pieces, texts, 2);
    assert(pieces[2] + texts[2] + pieces[3]
        =~= "</div><h2>"@ + esc_of(p.product) + "</h2><div class=\"okpis\">"@);
    law_text_stands_between_its_pieces(pieces, texts, 3);
    assert(pieces[3] + texts[3] + pieces[4]
        =~= "</h2><div class=\"okpis\">"@ + kpi_cells_of(f.kpis, f.figures) + "</div>"@);
    law_text_stands_between_its_pieces(pieces, texts, 4);
    assert(pieces[4] + texts[4] + pieces[5]
        =~= "</div>"@ + table_html(p, f.cards@, report_date) + "<div class=\"cboard\">"@);
    let cards = cards_html(slug_of(p.product), p.creatives, f.cards@, p.creatives.len());
    let none = Seq::<char>::empty();
    let head = section_head(p, report_date, f);
    let all = section_html(p, report_date, f);
    let behind = cards + "</div></section></div>"@;
    assert(all =~= none + head + behind);
    lemma_part_shows(
        all,
        none,
        head,
        behind,
        "<div class=\"pblock\" id=\"p-"@ + slug_of(p.product)
            + "\"><section><div class=\"seckick\">"@,
    );
    lemma_part_shows(
        all,
        none,
        head,
        behind,
        "\"><section><div class=\"seckick\">"@ + esc_of(p.product) + "</div><h2>"@,
    );
    lemma_part_shows(
        all,
        none,
        head,
        behind,
        "</div><h2>"@ + esc_of(p.product) + "</h2><div class=\"okpis\">"@,
    );
    lemma_part_shows(
        all,
        none,
        head,
        behind,
        "</h2><div class=\"okpis\">"@ + kpi_cells_of(f.kpis, f.figures) + "</div>"@,
    );
    lemma_part_shows(
        all,
        none,
        head,
        behind,
        "</div>"@ + table_html(p, f.cards@, report_date) + "<div class=\"cboard\">"@,
    );
}

/// Every product has its section.
pub proof fn law_every_product_has_its_section(
    products: Seq<SectionV>,
    report_date: Seq<char>,
    shown: Seq<SectionShown>,
    n: nat,
    i: int,
)
    requires
        0 <= i < n,
    ensures
        has_text(
            sections_html(products, report_date, shown, n),
            section_html(products[i], report_date, shown[i]),
        ),
    decreases n,
{
    let none = Seq::<char>::empty();
    let section = section_html(products[i], report_date, shown[i]);
    let ahead = sections_html(products, report_date, shown, (n - 1) as nat);
    let all = sections_html(products, report_date, shown, n);
    let last = section_html(products[n - 1], report_date, shown[n - 1]);
    if i == n - 1 {
        assert(all =~= ahead + section + none);
        lemma_shows_itself(ahead, section, none);
    } else {
        law_every_product_has_its_section(products, report_date, shown, (n - 1) as nat, i);
        assert(all =~= none + ahead + last);
        lemma_part_shows(all, none, ahead, last, section);
    }
}

/// Every product has a link to the anchor of its section.
pub proof fn law_every_product_has_its_link(products: Seq<SectionV>, n: nat, i: int)
    requires
        0 <= i < n,
    ensures
        has_text(
            nav_of(products, n),
            "<a href=\"#p-"@ + slug_of(products[i].product) + "\">"@ + esc_of(products[i].product)
                + "</a>"@,
        ),
    decreases n,
{
    reveal_strlit("<a href=\"#p-");
    reveal_strlit("\">");
    reveal_strlit("</a>");
    reveal_strlit("<a href=\"#p-{}\">{}</a>");
    let hole = seq!['{', '}'];
    assert("<a href=\"#p-{}\">{}</a>"@ =~= "<a href=\"#p-"@ + hole + ("\">"@ + hole + "</a>"@));
    crate::report::markup::lemma_two_holes(
        "<a href=\"#p-{}\">{}</a>"@,
        "<a href=\"#p-"@,
        "\">"@,
        "</a>"@,
        slug_of(products[i].product),
        esc_of(products[i].product),
    );
    let none = Seq::<char>::empty();
    let link = "<a href=\"#p-"@ + slug_of(products[i].product) + "\">"@ + esc_of(products[i].product)
        + "</a>"@;
    let ahead = nav_of(products, (n - 1) as nat);
    let all = nav_of(products, n);
    if i == n - 1 {
        assert(all =~= ahead + link + none);
        lemma_shows_itself(ahead, link, none);
    } else {
        law_every_product_has_its_link(products, (n - 1) as nat, i);
        let last = filled(
            "<a href=\"#p-{}\">{}</a>"@,
            seq![slug_of(products[n - 1].product), esc_of(products[n - 1].product)],
        );
        assert(all =~= none + ahead + last);
        lemma_part_shows(all, none, ahead, last, link);
    }
}

/// A window of one day is that day, and a longer one its first and its last. Only a page without a
/// CRM says so.
pub proof fn law_window_and_note_are_told(since: Seq<char>, until: Seq<char>)
    ensures
        window_text(since, since) == since,
        since != until ==> window_text(since, until) == since + " .. "@ + until,
        crm_note(true) == ""@,
        has_text(crm_note(false), "No CRM data in this snapshot"@),
{
    let note = "<div class=\"warnbox\">No CRM data in this snapshot - L-Leads/Qualified/Visit/Booking are zeros, not truths. Run a CRM fetch and regenerate.</div>"@;
    reveal_strlit(
        "<div class=\"warnbox\">No CRM data in this snapshot - L-Leads/Qualified/Visit/Booking are zeros, not truths. Run a CRM fetch and regenerate.</div>",
    );
    reveal_strlit("No CRM data in this snapshot");
    assert(note.subrange(21, 49) =~= "No CRM data in this snapshot"@);
    assert(occurs_at(note, "No CRM data in this snapshot"@, 21));
}

// Slots

/// Whether a text is the name of a slot: in double braces, and without others.
spec fn is_slot(x: Seq<char>) -> bool {
    &&& x.len() > 3
    &&& x[0] == '{' && x[1] == '{'
    &&& forall|i: int| 2 <= i < x.len() ==> #[trigger] x[i] != '{'
}

/// Whether two names differ behind their braces.
spec fn differ(x: Seq<char>, y: Seq<char>) -> bool {
    exists|d: int| 2 <= d < x.len() && d < y.len() && #[trigger] x[d] != y[d]
}

proof fn lemma_other_slot(
    a: Seq<char>,
    x: Seq<char>,
    b: Seq<char>,
    y: Seq<char>,
    q: Seq<char>,
    d: int,
    from: int,
)
    requires
        has_no_hole(a) && has_no_hole(b),
        is_slot(x) && is_slot(y),
        2 <= d < x.len(),
        d < y.len(),
        x[d] != y[d],
        0 <= from <= (a + x + b).len(),
    ensures
        replaced_from(a + x + b, y, q, from) == (a + x + b).skip(from),
    decreases (a + x + b).len() - from,
{
    let s = a + x + b;
    if from < s.len() {
        if occurs_at(s, y, from) {
            let part = s.subrange(from, from + y.len());
            assert(part[0] == s[from] && part[1] == s[from + 1] && part[d] == s[from + d]);
            if from < a.len() {
                assert(s[from] == a[from]);
            } else if from < a.len() + x.len() {
                assert(s[from] == x[from - a.len()]);
                if from == a.len() {
                    assert(s[from + d] == x[d]);
                } else {
                    assert(s[from + 1] == x[from + 1 - a.len()] || from + 1 >= a.len() + x.len());
                }
            } else {
                assert(s[from] == b[from - a.len() - x.len()]);
            }
            assert(false);
        }
        lemma_other_slot(a, x, b, y, q, d, from + 1);
        assert(seq![s[from]] + s.skip(from + 1) =~= s.skip(from));
    } else {
        assert(s.skip(from) =~= Seq::empty());
    }
}

/// A text with slots replaced, one after the other.
spec fn slotted(
    t: Seq<char>,
    names: Seq<Seq<char>>,
    texts: Seq<Seq<char>>,
    n: int,
) -> Seq<char>
    decreases n,
{
    if n <= 0 {
        t
    } else {
        replaced(slotted(t, names, texts, n - 1), names[n - 1], texts[n - 1])
    }
}

proof fn lemma_slotted(
    a: Seq<char>,
    b: Seq<char>,
    names: Seq<Seq<char>>,
    texts: Seq<Seq<char>>,
    j: int,
    n: int,
)
    requires
        has_no_hole(a) && has_no_hole(b),
        0 <= n <= names.len(),
        0 <= j < names.len(),
        texts.len() == names.len(),
        has_no_hole(texts[j]),
        forall|i: int| 0 <= i < names.len() ==> is_slot(#[trigger] names[i]),
        forall|i: int|
            0 <= i < names.len() && i != j ==> differ(names[j], #[trigger] names[i]),
    ensures
        n <= j ==> slotted(a + names[j] + b, names, texts, n) == a + names[j] + b,
        n > j ==> slotted(a + names[j] + b, names, texts, n) == a + texts[j] + b,
    decreases n,
{
    if n > 0 {
        lemma_slotted(a, b, names, texts, j, n - 1);
        let i = n - 1;
        assert(is_slot(names[i]) && is_slot(names[j]));
        if i < j {
            assert(differ(names[j], names[i]));
            let d = choose|d: int|
                2 <= d < names[j].len() && d < names[i].len() && #[trigger] names[j][d]
                    != names[i][d];
            lemma_other_slot(a, names[j], b, names[i], texts[i], d, 0);
            let s = a + names[j] + b;
            assert(s.skip(0) =~= s);
        } else if i == j {
            law_occurrence_is_replaced(a, b, names[j], texts[j]);
            law_occurrence_is_replaced(b, b, names[j], texts[j]);
        } else {
            let s = a + texts[j] + b;
            assert forall|k: int| 0 <= k < s.len() implies #[trigger] s[k] != '{' by {
                if k < a.len() {
                    assert(s[k] == a[k]);
                } else if k < a.len() + texts[j].len() {
                    assert(s[k] == texts[j][k - a.len()]);
                } else {
                    assert(s[k] == b[k - a.len() - texts[j].len()]);
                }
            }
            law_occurrence_is_replaced(s, s, names[i], texts[i]);
        }
    }
}

/// Each slot of a template takes what it is named for: the title, the window, the day, the links,
/// the sums, the note, the sections, and the time of the report. What goes into a slot holds no
/// brace.
pub proof fn law_slots_take_their_texts(
    a: Seq<char>,
    b: Seq<char>,
    r: ReportV,
    k: Kpis,
    f: KpiShown,
    shown: Seq<SectionShown>,
)
    requires
        has_no_hole(a) && has_no_hole(b),
    ensures
        ({
            let n = r.products.len();
            let window = esc_of(window_text(r.since, r.until));
            let title = "Creative Report - "@ + r.report_date;
            let sections = sections_html(r.products, r.report_date, shown, n);
            &&& has_no_hole(title) ==> page_of(a + "{{TITLE}}"@ + b, r, k, f, shown) == a + title + b
            &&& has_no_hole(window) ==> page_of(a + "{{WINDOW}}"@ + b, r, k, f, shown) == a + window
                + b
            &&& has_no_hole(esc_of(r.report_date)) ==> page_of(a + "{{DATE}}"@ + b, r, k, f, shown)
                == a + esc_of(r.report_date) + b
            &&& has_no_hole(nav_of(r.products, n)) ==> page_of(
                a + "{{JUMPNAV}}"@ + b,
                r,
                k,
                f,
                shown,
            ) == a + nav_of(r.products, n) + b
            &&& has_no_hole(kpi_cells_of(k, f)) ==> page_of(
                a + "{{PORTFOLIO_KPIS}}"@ + b,
                r,
                k,
                f,
                shown,
            ) == a + kpi_cells_of(k, f) + b
            &&& has_no_hole(crm_note(r.crm_present)) ==> page_of(
                a + "{{PORTFOLIO_NOTE}}"@ + b,
                r,
                k,
                f,
                shown,
            ) == a + crm_note(r.crm_present) + b
            &&& has_no_hole(sections) ==> page_of(a + "{{SECTIONS}}"@ + b, r, k, f, shown) == a
                + sections + b
            &&& has_no_hole(esc_of(r.generated_at)) ==> page_of(
                a + "{{GENERATED}}"@ + b,
                r,
                k,
                f,
                shown,
            ) == a + esc_of(r.generated_at) + b
        }),
{
    let n = r.products.len();
    let names = slot_names();
    let texts = seq![
        "Creative Report - "@ + r.report_date,
        esc_of(window_text(r.since, r.until)),
        esc_of(r.report_date),
        nav_of(r.products, n),
        kpi_cells_of(k, f),
        crm_note(r.crm_present),
        sections_html(r.products, r.report_date, shown, n),
        esc_of(r.generated_at),
    ];
    lemma_slot_names();
    assert forall|j: int| 0 <= j < 8 && has_no_hole(#[trigger] texts[j]) implies slotted(
        a + names[j] + b,
        names,
        texts,
        8,
    ) == a + texts[j] + b by {
        lemma_slotted(a, b, names, texts, j, 8);
    }
    assert forall|t: Seq<char>| page_of(t, r, k, f, shown) == #[trigger] slotted(t, names, texts, 8) by {
        reveal_with_fuel(slotted, 9);
    }
    assert(has_no_hole(texts[0]) ==> slotted(a + names[0] + b, names, texts, 8) == a + texts[0] + b);
    assert(has_no_hole(texts[1]) ==> slotted(a + names[1] + b, names, texts, 8) == a + texts[1] + b);
    assert(has_no_hole(texts[2]) ==> slotted(a + names[2] + b, names, texts, 8) == a + texts[2] + b);
    assert(has_no_hole(texts[3]) ==> slotted(a + names[3] + b, names, texts, 8) == a + texts[3] + b);
    assert(has_no_hole(texts[4]) ==> slotted(a + names[4] + b, names, texts, 8) == a + texts[4] + b);
    assert(has_no_hole(texts[5]) ==> slotted(a + names[5] + b, names, texts, 8) == a + texts[5] + b);
    assert(has_no_hole(texts[6]) ==> slotted(a + names[6] + b, names, texts, 8) == a + texts[6] + b);
    assert(has_no_hole(texts[7]) ==> slotted(a + names[7] + b, names, texts, 8) == a + texts[7] + b);
}

spec fn slot_names() -> Seq<Seq<char>> {
    seq![
        "{{TITLE}}"@,
        "{{WINDOW}}"@,
        "{{DATE}}"@,
        "{{JUMPNAV}}"@,
        "{{PORTFOLIO_KPIS}}"@,
        "{{PORTFOLIO_NOTE}}"@,
        "{{SECTIONS}}"@,
        "{{GENERATED}}"@,
    ]
}

proof fn lemma_slot_names()
    ensures
        forall|i: int| 0 <= i < 8 ==> is_slot(#[trigger] slot_names()[i]),
        forall|i: int, j: int|
            0 <= i < 8 && 0 <= j < 8 && i != j ==> differ(
                #[trigger] slot_names()[j],
                #[trigger] slot_names()[i],
            ),
{
    reveal_strlit("{{TITLE}}");
    reveal_strlit("{{WINDOW}}");
    reveal_strlit("{{DATE}}");
    reveal_strlit("{{JUMPNAV}}");
    reveal_strlit("{{PORTFOLIO_KPIS}}");
    reveal_strlit("{{PORTFOLIO_NOTE}}");
    reveal_strlit("{{SECTIONS}}");
    reveal_strlit("{{GENERATED}}");
    let names = slot_names();
    assert forall|i: int, j: int| 0 <= i < 8 && 0 <= j < 8 && i != j implies differ(
        #[trigger] names[j],
        #[trigger] names[i],
    ) by {
        if (i == 4 && j == 5) || (i == 5 && j == 4) {
            assert(names[j][12] != names[i][12]);
        } else {
            assert(names[j][2] != names[i][2]);
        }
    }
}

} // verus!
