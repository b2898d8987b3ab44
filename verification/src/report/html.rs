//! The page of a report. Amounts of money and rates are given as they are shown.

use crate::brief::print::grouped;
use crate::report::card::{cards_view, BreakdownV, CardV};
use crate::report::markup::{b64, b64_of, commas, esc, esc_of, fill, filled, slug, slug_of};
use crate::report::table::{comparison_table, table_html};
use crate::report::{sections_view, ReportV, SectionV};
use crate::schema::{CreativeCard, CreativeReport, Kpis, ProductSection, StatusCode};
use crate::strs::{cat2, cat3, dec, decimal, decimal_len, join, joined, replace, replaced, same};
use vstd::prelude::*;

pub mod laws;

verus! {

// Amounts

/// An amount of whole rupees.
pub open spec fn rupees_of(n: u64) -> Seq<char> {
    "\u{20B9}"@ + grouped(dec(n as nat))
}

pub fn rupees(n: u64) -> (r: String)
    ensures
        r@ == rupees_of(n),
{
    cat2("\u{20B9}", commas(n).as_str())
}

/// What a lead costs; nothing where there is none.
pub open spec fn cost_of(n: nat, cost: u64) -> Seq<char> {
    if n > 0 {
        rupees_of(cost)
    } else {
        "-"@
    }
}

pub fn cost(n: u64, each: u64) -> (r: String)
    ensures
        r@ == cost_of(n as nat, each),
{
    if n > 0 {
        rupees(each)
    } else {
        "-".to_owned()
    }
}

/// A rate; nothing where it is one of nothing.
pub open spec fn rate_of(n: nat, rate: Seq<char>) -> Seq<char> {
    if n > 0 {
        rate
    } else {
        "-"@
    }
}

pub fn rate(n: u64, shown: &str) -> (r: String)
    ensures
        r@ == rate_of(n as nat, shown@),
{
    if n > 0 {
        shown.to_owned()
    } else {
        "-".to_owned()
    }
}

/// How the sums of a product or of all of them are shown.
#[derive(Debug)]
pub struct KpiShown {
    pub spend: u64,
    /// What a lead costs.
    pub cpl: u64,
    /// How many impressions were clicked.
    pub ctr: String,
}

/// An image in a page.
#[derive(Debug)]
pub struct Embedded {
    pub mime: String,
    pub bytes: Vec<u8>,
}

/// How a card is shown.
#[derive(Debug)]
pub struct CardShown {
    pub spend: u64,
    pub cpl: u64,
    pub ctr: String,
    /// How many leads of the ads are in the CRM.
    pub m_to_l: String,
    /// How wide the bars of the funnel are, from the leads on.
    pub bars: Vec<String>,
    pub image: Option<Embedded>,
}

// Sums

pub open spec fn kpi_cell(v: Seq<char>, dot: Seq<char>, label: Seq<char>) -> Seq<char> {
    filled(
        "<div class=\"ok\"><div class=\"okv tabnum\">{}</div><div class=\"okl\"><i class=\"kdot {}\"></i>{}</div></div>"@,
        seq![v, dot, label],
    )
}

fn cell(v: &str, dot: &str, label: &str) -> (r: String)
    ensures
        r@ == kpi_cell(v@, dot@, label@),
{
    fill(
        "<div class=\"ok\"><div class=\"okv tabnum\">{}</div><div class=\"okl\"><i class=\"kdot {}\"></i>{}</div></div>",
        &vec![v, dot, label],
    )
}

/// The cells of sums: those of the ads, and those of the CRM.
pub open spec fn kpi_cells_of(k: Kpis, f: KpiShown) -> Seq<char> {
    kpi_cell(rupees_of(f.spend), "m"@, "spend"@) + kpi_cell(
        grouped(dec(k.impressions as nat)),
        "m"@,
        "impr"@,
    ) + kpi_cell(dec(k.funnel.m_leads as nat), "m"@, "M-Leads"@) + kpi_cell(
        cost_of(k.funnel.m_leads as nat, f.cpl),
        "m"@,
        "CPL"@,
    ) + kpi_cell(rate_of(k.impressions as nat, f.ctr@), "m"@, "CTR"@) + kpi_cell(
        dec(k.funnel.l_leads as nat),
        "c"@,
        "L-Leads"@,
    ) + kpi_cell(dec(k.funnel.qualified as nat), "c"@, "Qualified"@) + kpi_cell(
        dec(k.funnel.visit as nat),
        "c"@,
        "Visits"@,
    ) + kpi_cell(dec(k.funnel.booking as nat), "c"@, "Bookings"@) + (if k.unattributed_l_leads > 0 {
        kpi_cell(dec(k.unattributed_l_leads as nat), "c"@, "unattributed L"@)
    } else {
        Seq::empty()
    })
}

pub fn kpi_cells(k: &Kpis, f: &KpiShown) -> (r: String)
    ensures
        r@ == kpi_cells_of(*k, *f),
{
    let n = &k.funnel;
    let mut out = cell(rupees(f.spend).as_str(), "m", "spend");
    out.append(cell(commas(k.impressions).as_str(), "m", "impr").as_str());
    out.append(cell(decimal(n.m_leads).as_str(), "m", "M-Leads").as_str());
    out.append(cell(cost(n.m_leads, f.cpl).as_str(), "m", "CPL").as_str());
    out.append(cell(rate(k.impressions, f.ctr.as_str()).as_str(), "m", "CTR").as_str());
    out.append(cell(decimal(n.l_leads).as_str(), "c", "L-Leads").as_str());
    out.append(cell(decimal(n.qualified).as_str(), "c", "Qualified").as_str());
    out.append(cell(decimal(n.visit).as_str(), "c", "Visits").as_str());
    out.append(cell(decimal(n.booking).as_str(), "c", "Bookings").as_str());
    if k.unattributed_l_leads > 0 {
        out.append(cell(decimal(k.unattributed_l_leads).as_str(), "c", "unattributed L").as_str());
    }
    assert(out@ =~= kpi_cells_of(*k, *f));
    out
}

// Cards

pub open spec fn kpi_of(v: Seq<char>, label: Seq<char>) -> Seq<char> {
    filled(
        "<div class=\"cc-k\"><div class=\"cc-kv\">{}</div><div class=\"cc-kl\">{}</div></div>"@,
        seq![v, label],
    )
}

fn kpi(v: &str, label: &str) -> (r: String)
    ensures
        r@ == kpi_of(v@, label@),
{
    fill(
        "<div class=\"cc-k\"><div class=\"cc-kv\">{}</div><div class=\"cc-kl\">{}</div></div>",
        &vec![v, label],
    )
}

pub open spec fn bar_at(bars: Seq<String>, i: int) -> Seq<char> {
    if 0 <= i < bars.len() {
        bars[i]@
    } else {
        "2"@
    }
}

/// The bar of a step of a funnel: leads of the ads in one color, what the CRM has in another.
pub open spec fn bar_of(s: (Seq<char>, nat), i: int, width: Seq<char>) -> Seq<char> {
    filled(
        "<div class=\"hf-row\"><span class=\"hf-lab\">{}</span><span class=\"hf-track\"><span class=\"hf-bar\" style=\"width:{}%;background:{}\"></span></span><span class=\"hf-v\">{}</span></div>"@,
        seq![
            esc_of(s.0),
            width,
            if i == 2 {
                "var(--meta)"@
            } else {
                "var(--crm)"@
            },
            dec(s.1),
        ],
    )
}

/// The bars of the steps from the leads on, up to the step `n`.
pub open spec fn bars_of(funnel: Seq<(Seq<char>, nat)>, bars: Seq<String>, n: int) -> Seq<char>
    decreases n,
{
    if n <= 2 {
        Seq::empty()
    } else {
        bars_of(funnel, bars, n - 1) + bar_of(funnel[n - 1], n - 1, bar_at(bars, n - 3))
    }
}

pub open spec fn funnel_bars_of(funnel: Seq<(Seq<char>, nat)>, bars: Seq<String>) -> Seq<char> {
    "<div class=\"hfunnel\">"@ + bars_of(funnel, bars, funnel.len() as int) + "</div>"@
}

fn funnel_bars(c: &CreativeCard, bars: &Vec<String>) -> (r: String)
    ensures
        r@ == funnel_bars_of(c@.funnel, bars@),
{
    let mut out = "<div class=\"hfunnel\">".to_owned();
    let ghost head = out@;
    let mut i: usize = 2;
    assert(head + bars_of(c@.funnel, bars@, 2) =~= head);
    assert(c@.funnel.len() == c.funnel@.len());
    while i < c.funnel.len()
        invariant
            2 <= i,
            c.funnel@.len() >= 2 ==> i <= c.funnel@.len(),
            c.funnel@.len() < 2 ==> i == 2,
            c@.funnel.len() == c.funnel@.len(),
            out@ == head + bars_of(c@.funnel, bars@, i as int),
        decreases c.funnel.len() - i,
    {
        let s = &c.funnel[i];
        assert(c@.funnel[i as int] == (s.stage@, s.count as nat));
        let width = if i - 2 < bars.len() {
            bars[i - 2].as_str()
        } else {
            "2"
        };
        let color = if i == 2 {
            "var(--meta)"
        } else {
            "var(--crm)"
        };
        let (name, n) = (esc(s.stage.as_str()), decimal(s.count));
        let bar = fill(
            "<div class=\"hf-row\"><span class=\"hf-lab\">{}</span><span class=\"hf-track\"><span class=\"hf-bar\" style=\"width:{}%;background:{}\"></span></span><span class=\"hf-v\">{}</span></div>",
            &vec![name.as_str(), width, color, n.as_str()],
        );
        assert(bar@ == bar_of(c@.funnel[i as int], i as int, bar_at(bars@, i - 2)));
        out.append(bar.as_str());
        assert(out@ =~= head + bars_of(c@.funnel, bars@, i + 1));
        i += 1;
    }
    assert(bars_of(c@.funnel, bars@, i as int) == bars_of(
        c@.funnel,
        bars@,
        c@.funnel.len() as int,
    ));
    out.append("</div>");
    out
}

pub open spec fn chips_of(t: Seq<BreakdownV>, n: int) -> Seq<char>
    decreases n,
{
    if n <= 0 {
        Seq::empty()
    } else {
        chips_of(t, n - 1) + filled(
            "<span class=\"capi-chip\">{}<b>{}</b>M</span>"@,
            seq![esc_of(t[n - 1].targeting), dec(t[n - 1].delivery.sum.m_leads)],
        )
    }
}

/// The first four targetings of a card.
pub open spec fn targeting_chips_of(t: Seq<BreakdownV>) -> Seq<char> {
    if t.len() == 0 {
        Seq::empty()
    } else {
        "<div class=\"capirow\">"@ + chips_of(
            t,
            if t.len() < 4 {
                t.len() as int
            } else {
                4
            },
        ) + "</div>"@
    }
}

fn targeting_chips(c: &CreativeCard) -> (r: String)
    ensures
        r@ == targeting_chips_of(c@.targetings),
{
    let ghost all = c@.targetings;
    assert(all.len() == c.targetings@.len());
    if c.targetings.len() == 0 {
        let r = String::new();
        assert(r@ =~= Seq::empty());
        return r;
    }
    let n: usize = if c.targetings.len() < 4 {
        c.targetings.len()
    } else {
        4
    };
    let mut out = "<div class=\"capirow\">".to_owned();
    let ghost head = out@;
    let mut i: usize = 0;
    assert(head + chips_of(all, 0) =~= head);
    while i < n
        invariant
            i <= n <= c.targetings@.len(),
            all == c@.targetings,
            out@ == head + chips_of(all, i as int),
        decreases n - i,
    {
        let t = &c.targetings[i];
        assert(all[i as int] == t@);
        let (name, m) = (esc(t.targeting.as_str()), decimal(t.delivery.m_leads));
        let chip = fill(
            "<span class=\"capi-chip\">{}<b>{}</b>M</span>",
            &vec![name.as_str(), m.as_str()],
        );
        out.append(chip.as_str());
        assert(out@ =~= head + chips_of(all, i + 1));
        i += 1;
    }
    out.append("</div>");
    out
}

pub open spec fn status_class_of(code: StatusCode) -> Seq<char> {
    match code {
        StatusCode::Live => "st-live"@,
        StatusCode::Learn => "st-learn"@,
        StatusCode::Stop => "st-stop"@,
    }
}

pub fn status_class(code: StatusCode) -> (r: &'static str)
    ensures
        r@ == status_class_of(code),
{
    match code {
        StatusCode::Live => "st-live",
        StatusCode::Learn => "st-learn",
        StatusCode::Stop => "st-stop",
    }
}

pub open spec fn image_html(i: Option<Embedded>) -> Seq<char> {
    match i {
        Some(e) => filled(
            "<img src=\"data:{};base64,{}\" alt=\"\" loading=\"lazy\">"@,
            seq![e.mime@, b64_of(e.bytes@)],
        ),
        None => "<div class=\"noimg\">no preview</div>"@,
    }
}

fn show_image(i: &Option<Embedded>) -> (r: String)
    ensures
        r@ == image_html(*i),
{
    match i {
        Some(e) => {
            let payload = b64(&e.bytes);
            fill(
                "<img src=\"data:{};base64,{}\" alt=\"\" loading=\"lazy\">",
                &vec![e.mime.as_str(), payload.as_str()],
            )
        },
        None => "<div class=\"noimg\">no preview</div>".to_owned(),
    }
}

/// The card at a rank of its product.
pub open spec fn card_html(rank: nat, pslug: Seq<char>, c: CardV, f: CardShown) -> Seq<char> {
    filled(
        "<div class=\"ccard\" id=\"c-{}-{}\"><div class=\"cc-fig\"><span class=\"crank\">{}</span>{}{}</div><div class=\"cc-body\"><div class=\"cc-name\" title=\"{}\">{}</div><div class=\"cc-camp\">{}</div><div class=\"cc-kpis\">{}{}{}{}</div>{}<div class=\"cc-meta\"><span class=\"stx {}\">{}</span><span>{} ad(s){}</span></div>{}</div></div>"@,
        seq![
            pslug,
            dec(rank),
            dec(rank),
            if c.is_video {
                "<span class=\"vtag\">VIDEO</span>"@
            } else {
                ""@
            },
            image_html(f.image),
            esc_of(c.display_name),
            esc_of(c.display_name),
            esc_of(joined(c.campaigns, " / "@)),
            kpi_of(rupees_of(f.spend), "spend"@),
            kpi_of(grouped(dec(c.delivery.sum.impressions)), "impr"@),
            kpi_of(cost_of(c.delivery.sum.m_leads, f.cpl), "cpl"@),
            kpi_of(rate_of(c.delivery.sum.impressions, f.ctr@), "ctr"@),
            funnel_bars_of(c.funnel, f.bars@),
            status_class_of(c.status.code),
            esc_of(c.status.label),
            dec(c.ad_ids.len()),
            match c.created {
                Some(d) => " &middot; since "@ + esc_of(d),
                None => ""@,
            },
            targeting_chips_of(c.targetings),
        ],
    )
}

/// Shows a card.
pub fn render_card(rank: usize, pslug: &str, c: &CreativeCard, f: &CardShown) -> (r: String)
    ensures
        r@ == card_html(rank as nat, pslug@, c@, *f),
{
    let n = decimal_len(rank);
    let vtag = if c.is_video {
        "<span class=\"vtag\">VIDEO</span>"
    } else {
        ""
    };
    let (img, name) = (show_image(&f.image), esc(c.display_name.as_str()));
    let campaigns = esc(join(&c.campaigns, " / ").as_str());
    let k1 = kpi(rupees(f.spend).as_str(), "spend");
    let k2 = kpi(commas(c.delivery.impressions).as_str(), "impr");
    let k3 = kpi(cost(c.delivery.m_leads, f.cpl).as_str(), "cpl");
    let k4 = kpi(rate(c.delivery.impressions, f.ctr.as_str()).as_str(), "ctr");
    let bars = funnel_bars(c, &f.bars);
    let label = esc(c.status.label.as_str());
    let ads = decimal_len(c.ad_ids.len());
    let since = match &c.created {
        Some(d) => cat2(" &middot; since ", esc(d.as_str()).as_str()),
        None => "".to_owned(),
    };
    let chips = targeting_chips(c);
    assert(c@.ad_ids.len() == c.ad_ids@.len());
    fill(
        "<div class=\"ccard\" id=\"c-{}-{}\"><div class=\"cc-fig\"><span class=\"crank\">{}</span>{}{}</div><div class=\"cc-body\"><div class=\"cc-name\" title=\"{}\">{}</div><div class=\"cc-camp\">{}</div><div class=\"cc-kpis\">{}{}{}{}</div>{}<div class=\"cc-meta\"><span class=\"stx {}\">{}</span><span>{} ad(s){}</span></div>{}</div></div>",
        &vec![
            pslug,
            n.as_str(),
            n.as_str(),
            vtag,
            img.as_str(),
            name.as_str(),
            name.as_str(),
            campaigns.as_str(),
            k1.as_str(),
            k2.as_str(),
            k3.as_str(),
            k4.as_str(),
            bars.as_str(),
            status_class(c.status.code),
            label.as_str(),
            ads.as_str(),
            since.as_str(),
            chips.as_str(),
        ],
    )
}

// Sections

/// The first `n` cards of a product.
pub open spec fn cards_html(pslug: Seq<char>, cards: Seq<CardV>, shown: Seq<CardShown>, n: nat) -> Seq<
    char,
>
    decreases n,
{
    if n == 0 {
        Seq::empty()
    } else {
        cards_html(pslug, cards, shown, (n - 1) as nat) + card_html(
            n,
            pslug,
            cards[n - 1],
            shown[n - 1],
        )
    }
}

/// How a product is shown.
#[derive(Debug)]
pub struct SectionShown {
    pub kpis: Kpis,
    pub figures: KpiShown,
    pub cards: Vec<CardShown>,
}

/// The section of a product: its sums, the table of its cards, and the cards.
pub open spec fn section_html(p: SectionV, report_date: Seq<char>, f: SectionShown) -> Seq<char> {
    let s = slug_of(p.product);
    filled(
        "<div class=\"pblock\" id=\"p-{}\"><section><div class=\"seckick\">{}</div><h2>{}</h2><div class=\"okpis\">{}</div>{}<div class=\"cboard\">"@,
        seq![
            s,
            esc_of(p.product),
            esc_of(p.product),
            kpi_cells_of(f.kpis, f.figures),
            table_html(p, f.cards@, report_date),
        ],
    ) + cards_html(s, p.creatives, f.cards@, p.creatives.len()) + "</div></section></div>"@
}

/// Shows the section of a product.
pub fn render_section(p: &ProductSection, report_date: &str, f: &SectionShown) -> (r: String)
    requires
        f.cards@.len() == p.creatives@.len(),
    ensures
        r@ == section_html(p@, report_date@, *f),
{
    let (s, name) = (slug(p.product.as_str()), esc(p.product.as_str()));
    let (cells, table) = (
        kpi_cells(&f.kpis, &f.figures),
        comparison_table(p, &f.cards, report_date),
    );
    let mut out = fill(
        "<div class=\"pblock\" id=\"p-{}\"><section><div class=\"seckick\">{}</div><h2>{}</h2><div class=\"okpis\">{}</div>{}<div class=\"cboard\">",
        &vec![s.as_str(), name.as_str(), name.as_str(), cells.as_str(), table.as_str()],
    );
    let ghost head = out@;
    let ghost cards = p@.creatives;
    let mut i: usize = 0;
    assert(head + cards_html(s@, cards, f.cards@, 0) =~= head);
    while i < p.creatives.len()
        invariant
            i <= p.creatives@.len(),
            cards == cards_view(p.creatives@),
            f.cards@.len() == p.creatives@.len(),
            out@ == head + cards_html(s@, cards, f.cards@, i as nat),
        decreases p.creatives.len() - i,
    {
        assert(cards[i as int] == p.creatives@[i as int]@);
        let card = render_card(i + 1, s.as_str(), &p.creatives[i], &f.cards[i]);
        out.append(card.as_str());
        assert((i + 1) as nat - 1 == i as nat);
        assert(out@ =~= head + cards_html(s@, cards, f.cards@, (i + 1) as nat));
        i += 1;
    }
    assert(cards.len() == p.creatives@.len());
    out.append("</div></section></div>");
    out
}

// The page

pub open spec fn window_text(since: Seq<char>, until: Seq<char>) -> Seq<char> {
    if since == until {
        since
    } else {
        since + " .. "@ + until
    }
}

pub open spec fn nav_of(products: Seq<SectionV>, n: nat) -> Seq<char>
    decreases n,
{
    if n == 0 {
        "<a href=\"#portfolio\">Portfolio</a>"@
    } else {
        nav_of(products, (n - 1) as nat) + filled(
            "<a href=\"#p-{}\">{}</a>"@,
            seq![slug_of(products[n - 1].product), esc_of(products[n - 1].product)],
        )
    }
}

pub open spec fn sections_html(
    products: Seq<SectionV>,
    report_date: Seq<char>,
    shown: Seq<SectionShown>,
    n: nat,
) -> Seq<char>
    decreases n,
{
    if n == 0 {
        Seq::empty()
    } else {
        sections_html(products, report_date, shown, (n - 1) as nat) + section_html(
            products[n - 1],
            report_date,
            shown[n - 1],
        )
    }
}

pub open spec fn crm_note(present: bool) -> Seq<char> {
    if present {
        ""@
    } else {
        "<div class=\"warnbox\">No CRM data in this snapshot - L-Leads/Qualified/Visit/Booking are zeros, not truths. Run a CRM fetch and regenerate.</div>"@
    }
}

/// The page of a report: a template in which the names in double braces are replaced, one after
/// the other.
pub open spec fn page_of(
    template: Seq<char>,
    r: ReportV,
    k: Kpis,
    figures: KpiShown,
    shown: Seq<SectionShown>,
) -> Seq<char> {
    let n = r.products.len();
    let t1 = replaced(template, "{{TITLE}}"@, "Creative Report - "@ + r.report_date);
    let t2 = replaced(t1, "{{WINDOW}}"@, esc_of(window_text(r.since, r.until)));
    let t3 = replaced(t2, "{{DATE}}"@, esc_of(r.report_date));
    let t4 = replaced(t3, "{{JUMPNAV}}"@, nav_of(r.products, n));
    let t5 = replaced(t4, "{{PORTFOLIO_KPIS}}"@, kpi_cells_of(k, figures));
    let t6 = replaced(t5, "{{PORTFOLIO_NOTE}}"@, crm_note(r.crm_present));
    let t7 = replaced(t6, "{{SECTIONS}}"@, sections_html(r.products, r.report_date, shown, n));
    replaced(t7, "{{GENERATED}}"@, esc_of(r.generated_at))
}

fn nav(products: &Vec<ProductSection>) -> (r: String)
    ensures
        r@ == nav_of(sections_view(products@), products@.len()),
{
    let ghost all = sections_view(products@);
    let mut out = "<a href=\"#portfolio\">Portfolio</a>".to_owned();
    let mut i: usize = 0;
    while i < products.len()
        invariant
            i <= products@.len(),
            all == sections_view(products@),
            out@ == nav_of(all, i as nat),
        decreases products.len() - i,
    {
        assert(all[i as int] == products@[i as int]@);
        let (s, name) = (slug(products[i].product.as_str()), esc(products[i].product.as_str()));
        let a = fill("<a href=\"#p-{}\">{}</a>", &vec![s.as_str(), name.as_str()]);
        assert((i + 1) as nat - 1 == i as nat);
        out.append(a.as_str());
        i += 1;
    }
    out
}

/// Makes the page of a report.
pub fn render(
    template: &str,
    r: &CreativeReport,
    k: &Kpis,
    figures: &KpiShown,
    shown: &Vec<SectionShown>,
) -> (t: String)
    requires
        shown@.len() == r.products@.len(),
        forall|i: int|
            0 <= i < shown@.len() ==> (#[trigger] shown@[i]).cards@.len()
                == r.products@[i].creatives@.len(),
    ensures
        t@ == page_of(template@, r@, *k, *figures, shown@),
{
    let since = r.window.since.as_str();
    let until = r.window.until.as_str();
    let window = if same(since, until) {
        since.to_owned()
    } else {
        cat3(since, " .. ", until)
    };
    let ghost all = r@.products;
    let mut sections = String::new();
    let mut i: usize = 0;
    assert(sections@ =~= sections_html(all, r@.report_date, shown@, 0));
    while i < r.products.len()
        invariant
            i <= r.products@.len(),
            all == sections_view(r.products@),
            shown@.len() == r.products@.len(),
            forall|j: int|
                0 <= j < shown@.len() ==> (#[trigger] shown@[j]).cards@.len()
                    == r.products@[j].creatives@.len(),
            sections@ == sections_html(all, r@.report_date, shown@, i as nat),
        decreases r.products.len() - i,
    {
        assert(all[i as int] == r.products@[i as int]@);
        let s = render_section(&r.products[i], r.report_date.as_str(), &shown[i]);
        assert((i + 1) as nat - 1 == i as nat);
        sections.append(s.as_str());
        i += 1;
    }
    assert(all.len() == r.products@.len());
    let note = if r.source.crm_present {
        ""
    } else {
        "<div class=\"warnbox\">No CRM data in this snapshot - L-Leads/Qualified/Visit/Booking are zeros, not truths. Run a CRM fetch and regenerate.</div>"
    };
    let title = cat2("Creative Report - ", r.report_date.as_str());
    proof {
        reveal_strlit("{{TITLE}}");
        reveal_strlit("{{WINDOW}}");
        reveal_strlit("{{DATE}}");
        reveal_strlit("{{JUMPNAV}}");
        reveal_strlit("{{PORTFOLIO_KPIS}}");
        reveal_strlit("{{PORTFOLIO_NOTE}}");
        reveal_strlit("{{SECTIONS}}");
        reveal_strlit("{{GENERATED}}");
    }
    let t1 = replace(template, "{{TITLE}}", title.as_str());
    let t2 = replace(t1.as_str(), "{{WINDOW}}", esc(window.as_str()).as_str());
    let t3 = replace(t2.as_str(), "{{DATE}}", esc(r.report_date.as_str()).as_str());
    let t4 = replace(t3.as_str(), "{{JUMPNAV}}", nav(&r.products).as_str());
    let t5 = replace(t4.as_str(), "{{PORTFOLIO_KPIS}}", kpi_cells(k, figures).as_str());
    let t6 = replace(t5.as_str(), "{{PORTFOLIO_NOTE}}", note);
    let t7 = replace(t6.as_str(), "{{SECTIONS}}", sections.as_str());
    replace(t7.as_str(), "{{GENERATED}}", esc(r.generated_at.as_str()).as_str())
}

} // verus!
