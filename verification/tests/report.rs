//! The creative report: its groups, counts and pages.

use moneyball_core::json::Json;
use moneyball_core::provider::TextMap;
use moneyball_core::report::ads::sums_fit;
use moneyball_core::report::group::{base_targeting, group_key, strip_copy_suffix};
use moneyball_core::report::html::{render, rupees, CardShown, Embedded, KpiShown, SectionShown};
use moneyball_core::report::img::{card_image, chosen, ext_of, mime, plan, Plan};
use moneyball_core::report::markup::{b64, commas, esc, fill, slug};
use moneyball_core::report::output::{ensure_workspace_id, html_name, json_name, mint_id};
use moneyball_core::report::segmentation::{
    classify, norm_phone, per_ad, split, valid_phone, LeadKind,
};
use moneyball_core::report::specs::{archetype, radius_texts, specs_for};
use moneyball_core::report::summary::{card_order, portfolio_kpis, section_kpis, text_summary};
use moneyball_core::report::targeting::{self, verdicts, VerdictFacts};
use moneyball_core::report::{self};
use moneyball_core::schema::{
    AssetRef, ContactRow, CreativeCard, CreativeReport, CreativeRow, CreativesFile, GroupKind,
    Kpis, LeadRow, SevenDay, CREATIVES_SCHEMA, CREATIVE_REPORT_SCHEMA,
};
use moneyball_core::snapshot::{read_ads_daily, Snapshot};
use moneyball_core::window::{lead_values, window, LeadValues};

fn json(text: &str) -> Json {
    Json::parse(text).unwrap()
}

fn number(s: &str) -> f64 {
    s.trim().parse().unwrap_or(0.0)
}

/// The leads of each row.
fn leads_of(s: &Snapshot) -> Vec<u64> {
    s.ads_daily
        .iter()
        .map(|r| match lead_values(&r.actions) {
            LeadValues::One(v) => number(&v).round() as u64,
            LeadValues::Sum(v) => v.iter().map(|x| number(x)).sum::<f64>().round() as u64,
        })
        .collect()
}

fn ad_row(ad: &str, adset: &str, name: &str, date: &str, spend: &str, imp: &str, n: u64) -> String {
    format!(
        r#"{{"campaign_id": "c1", "campaign_name": "NM - Leads",
            "adset_id": "as-{adset}", "adset_name": "{adset} (AI)",
            "ad_id": "{ad}", "ad_name": "{name}",
            "spend": "{spend}", "impressions": "{imp}", "inline_link_clicks": "10",
            "reach": "100",
            "actions": [{{"action_type": "lead", "value": "{n}"}}],
            "date_start": "{date}", "date_stop": "{date}",
            "_product": "Namma Mane"}}"#
    )
}

fn creative(ad_id: &str, name: &str, hash: Option<&str>, video: bool, active: bool) -> CreativeRow {
    CreativeRow {
        ad_id: ad_id.into(),
        ad_name: name.into(),
        product: "Namma Mane".into(),
        image_hash: hash.map(String::from),
        is_video: video,
        video_id: if video { Some("v900".into()) } else { None },
        status: Some(if active { "ACTIVE" } else { "PAUSED" }.into()),
        created_time: Some("2026-08-01T10:00:00+0530".into()),
        asset: hash.map(|h| AssetRef {
            sha256: format!("{:0<64}", h),
            content_type: "image/jpeg".into(),
            bytes: 10,
        }),
        ..Default::default()
    }
}

/// Delivery epoch (seconds) inside the report day for the 2026-08-07
/// snapshot: IST midnight of 08-07 minus half a day = midday 08-06 IST.
fn epoch_in_window() -> i64 {
    // 2026-08-07 00:00 IST = 2026-08-06 18:30 UTC
    window("2026-08-07", 1).unwrap().to - 43200
}

fn snapshot() -> Snapshot {
    // Two image ads sharing one hash (must merge), one video ad with
    // "- Copy 2" (vidname key), one ad with no creative row (ad fallback).
    let rows = [
        ad_row("a1", "Income", "NM Static", "2026-08-06", "100.5", "1000", 3),
        ad_row("a2", "Broad", "NM Static - Copy 2", "2026-08-06", "50.5", "500", 1),
        ad_row("a3", "Income", "NM Walkthrough - Copy 2", "2026-08-06", "200", "2000", 2),
        ad_row("a4", "Broad", "Orphan Ad", "2026-08-06", "25", "250", 0),
        // Out-of-window row must be excluded (window=1 covers 08-06 only).
        ad_row("a1", "Income", "NM Static", "2026-08-05", "999", "9999", 9),
    ];
    let ep = epoch_in_window();
    let ticket = |ad_id: &str, stage: &str| {
        format!(r#"{{"ad_id": "{ad_id}", "stage": "{stage}", "delivery": {ep}}}"#)
    };
    let crm = [
        ticket("a1", "Contactable"),           // joins img group, qualified
        ticket("a2", "Registered"),            // joins img group via a2
        ticket("a3", "Booking"),               // video group, full depth
        ticket("zz-not-an-ad", "Contactable"), // unattributed - never dropped
    ];
    Snapshot {
        path: "/t".into(),
        date: "2026-08-07".into(),
        ads_daily: read_ads_daily(&json(&format!("[{}]", rows.join(",")))).unwrap(),
        adsets: json("{}"),
        creatives: Some(CreativesFile {
            schema: CREATIVES_SCHEMA.into(),
            fetched_at: String::new(),
            rows: vec![
                creative("a1", "NM Static", Some("h1"), false, true),
                creative("a2", "NM Static - Copy 2", Some("h1"), false, false),
                creative("a3", "NM Walkthrough - Copy 2", None, true, true),
            ],
        }),
        crm: json(&format!("[{}]", crm.join(","))),
        regions: json("[]"),
        changes: json("[]"),
        campaigns: json("[]"),
    }
}

fn spend(s: &Snapshot, c: &CreativeCard) -> f64 {
    c.delivery
        .spend
        .iter()
        .map(|ad| ad.iter().map(|i| number(&s.ads_daily[*i].spend)).sum::<f64>())
        .sum()
}

/// The report, its cards in their order, and its sums.
fn built(s: &Snapshot, workspace: &str, at: &str, days: u32) -> (CreativeReport, Kpis) {
    let m = leads_of(s);
    assert!(sums_fit(&s.ads_daily, &m));
    let mut r = report::build(s, &vec![], &vec![], workspace, at, days, &m).unwrap();
    let mut sums = Vec::new();
    for p in &mut r.products {
        let spent: Vec<u64> =
            p.creatives.iter().map(|c| spend(s, c) as u64).collect();
        let order = card_order(&p.creatives, &spent);
        let mut slots: Vec<Option<CreativeCard>> =
            std::mem::take(&mut p.creatives).into_iter().map(Some).collect();
        p.creatives = order.into_iter().map(|i| slots[i].take().unwrap()).collect();
        sums.push(section_kpis(&p.creatives).unwrap());
    }
    let k = portfolio_kpis(&sums, r.unattributed_l_leads).unwrap();
    (r, k)
}

#[test]
fn build_groups_joins_and_orders_correctly() {
    let s = snapshot();
    let (r, k) = built(&s, "ws-test", "2026-08-07T00:00:00Z", 1);

    assert_eq!(r.schema, CREATIVE_REPORT_SCHEMA);
    assert_eq!(r.workspace_id, "ws-test");
    assert_eq!(r.window.since, "2026-08-06");
    assert_eq!(r.window.until, "2026-08-06");
    assert_eq!(r.products.len(), 1);
    let p = &r.products[0];

    // 3 groups: shared-hash image pair, video, orphan.
    assert_eq!(
        p.creatives.len(),
        3,
        "{:#?}",
        p.creatives.iter().map(|c| &c.group_key).collect::<Vec<_>>()
    );

    // Ordering: video group has a Booking -> first. Image group has
    // Qualified -> second. Orphan (no CRM) last.
    assert_eq!(p.creatives[0].group_key, "vidname:nm walkthrough");
    assert!(matches!(p.creatives[0].group_kind, GroupKind::VideoName));
    assert_eq!(p.creatives[1].group_key, "img:h1");
    assert_eq!(p.creatives[2].group_key, "ad:a4");

    // Image group merged both ads: spend 151, 2 ads, funnel joined.
    let img = &p.creatives[1];
    assert_eq!(img.ad_ids.len(), 2);
    assert!((spend(&s, img) - 151.0).abs() < 0.01);
    assert_eq!(img.delivery.impressions, 1500); // out-of-window row excluded
    assert_eq!(img.delivery.m_leads, 4);
    let f: Vec<u64> = img.funnel.iter().map(|s| s.count).collect();
    assert_eq!(f, vec![1500, 20, 4, 2, 1, 0, 0]);
    // Status: a1 ACTIVE (no adsets blob) -> Live; image present.
    assert_eq!(img.status.label, "Live");
    assert!(img.image.as_ref().unwrap().path.starts_with("assets/creatives/"));

    // Video group: booking implies visit+qualified per milestones.
    let vid = &p.creatives[0];
    let f: Vec<u64> = vid.funnel.iter().map(|s| s.count).collect();
    assert_eq!(f[3], 1);
    assert_eq!(f[6], 1, "booking counted");

    // Targeting split on the image group: Income (a1) and Broad (a2).
    let t: Vec<&str> = img.targetings.iter().map(|t| t.targeting.as_str()).collect();
    assert_eq!(t, vec!["Broad", "Income"]);

    // Unattributed ticket surfaced at portfolio level.
    assert_eq!(k.unattributed_l_leads, 1);
    assert_eq!(k.funnel.l_leads, 3);
    let all: f64 = p.creatives.iter().map(|c| spend(&s, c)).sum();
    assert!((all - 376.0).abs() < 0.01);
    assert_eq!(k.impressions, 3750);

    // KPI derivations: never zero-as-sentinel.
    assert!(k.funnel.qualified > 0);
    let orphan = &p.creatives[2];
    assert_eq!(orphan.funnel[3].count, 0);

    // Trend: exactly the window days, funnel counts landed on 08-06.
    assert_eq!(img.trend.len(), 1);
    assert_eq!(img.trend[0].date, "2026-08-06");
    assert_eq!(img.trend[0].l_leads, 2);
}

#[test]
fn no_creatives_file_falls_back_to_per_ad_cards() {
    let mut s = snapshot();
    s.creatives = None;
    let (r, _) = built(&s, "ws", "t", 1);
    let p = &r.products[0];
    // Every ad its own card; delivery never dropped.
    assert_eq!(p.creatives.len(), 4);
    assert!(p.creatives.iter().all(|c| matches!(c.group_kind, GroupKind::AdId)));
    assert!(r.source.creatives_schema.is_none());
}

#[test]
fn empty_crm_flags_source_and_zero_funnel() {
    let mut s = snapshot();
    s.crm = json("{}");
    let (r, k) = built(&s, "ws", "t", 1);
    assert!(!r.source.crm_present);
    assert_eq!(k.funnel.l_leads, 0);
    // Text summary renders without CRM (bot-renderer dry run).
    let spends: Vec<Vec<String>> = r
        .products
        .iter()
        .map(|p| p.creatives.iter().map(|c| format!("{:.0}", spend(&s, c))).collect())
        .collect();
    let txt = text_summary(&r, &k, "376", &spends);
    assert!(txt.contains("CREATIVE REPORT"), "{}", txt);
}

#[test]
fn html_renders_from_aggregate_and_cache_only() {
    let s = snapshot();
    let (r, k) = built(&s, "ws", "2026-08-07T00:00:00Z", 1);
    // One cached image, so exactly one card gets a data URI.
    let shown: Vec<SectionShown> = r
        .products
        .iter()
        .map(|p| SectionShown {
            kpis: section_kpis(&p.creatives).unwrap(),
            figures: KpiShown { spend: 376, cpl: 63, ctr: "1.07%".into() },
            cards: p
                .creatives
                .iter()
                .map(|c| CardShown {
                    spend: spend(&s, c).round() as u64,
                    cpl: 0,
                    ctr: "1.0%".into(),
                    m_to_l: "50%".into(),
                    bars: vec![],
                    image: c.image.as_ref().map(|_| Embedded {
                        mime: mime("jpg").to_string(),
                        bytes: b"fake-jpeg-bytes".to_vec(),
                    }),
                })
                .collect(),
        })
        .collect();
    let template = "<h1>{{TITLE}}</h1>{{WINDOW}}{{DATE}}{{JUMPNAV}}{{PORTFOLIO_KPIS}}\
        {{PORTFOLIO_NOTE}}{{SECTIONS}}{{GENERATED}}";
    let figures = KpiShown { spend: 376, cpl: 63, ctr: "1.07%".into() };
    let html = render(template, &r, &k, &figures, &shown);

    // No unexpanded placeholders, all sections + jumpnav present.
    assert!(!html.contains("{{"), "leftover template placeholder");
    assert!(html.contains(r##"href="#p-namma-mane""##));
    assert!(html.contains("data:image/jpeg;base64,"), "cached image inlined");
    assert!(html.contains("no preview"), "missing assets degrade to placeholder");
    assert!(html.contains("VIDEO"), "video tag rendered");
    // Escaping: ad names are data, not markup.
    assert!(!html.contains("<script"));
}

#[test]
fn a_report_wants_a_date_and_data() {
    let mut s = snapshot();
    s.date = "today".into();
    let m = leads_of(&s);
    assert!(report::build(&s, &vec![], &vec![], "ws", "t", 1, &m).is_err());
    assert!(!sums_fit(&snapshot().ads_daily, &vec![u64::MAX; 5]));
}

#[test]
fn base_targeting_strips_campaign_suffix() {
    assert_eq!(base_targeting("Income (AI)"), "Income");
    assert_eq!(base_targeting("Lookalike 2% (NM - Leads)"), "Lookalike 2%");
    assert_eq!(base_targeting("Broad"), "Broad");
    assert_eq!(base_targeting(""), "-");
    assert_eq!(base_targeting("(only suffix)"), "-");
}

#[test]
fn copy_suffix_stripping_matches_python_rule() {
    assert_eq!(strip_copy_suffix("NM Video - Copy 2"), "NM Video");
    assert_eq!(strip_copy_suffix("NM Video \u{2013} copy"), "NM Video");
    assert_eq!(strip_copy_suffix("NM Video - COPY 10"), "NM Video");
    // No dash before copy: not the auto-suffix, keep verbatim.
    assert_eq!(strip_copy_suffix("Copywriting Ad"), "Copywriting Ad");
    assert_eq!(strip_copy_suffix("Great copy"), "Great copy");
}

#[test]
fn group_key_precedence() {
    let name = "Video X - Copy 3";
    let video = CreativeRow {
        ad_id: "a".into(),
        ad_name: "Video X - Copy 3".into(),
        is_video: true,
        video_id: Some("v1".into()),
        image_hash: Some("h".into()),
        ..Default::default()
    };
    assert_eq!(
        group_key("a", name, Some(&video)),
        (GroupKind::VideoName, "vidname:video x".into())
    );
    let image = CreativeRow {
        ad_id: "a".into(),
        image_hash: Some("h1".into()),
        image_basename: Some("x.jpg".into()),
        ..Default::default()
    };
    assert_eq!(group_key("a", name, Some(&image)), (GroupKind::ImageHash, "img:h1".into()));
    let basename_only = CreativeRow {
        ad_id: "a".into(),
        image_basename: Some("x.jpg".into()),
        ..Default::default()
    };
    assert_eq!(
        group_key("a", name, Some(&basename_only)),
        (GroupKind::ImageBasename, "img:x.jpg".into())
    );
    assert_eq!(group_key("a9", name, None), (GroupKind::AdId, "ad:a9".into()));
}

fn s7(m: u64, l: u64, q: u64) -> SevenDay {
    SevenDay {
        spend: vec![],
        impressions: 10_000,
        clicks: 100,
        m_leads: m,
        l_leads: l,
        qualified: q,
    }
}

/// What the money says of seven days.
fn facts(s: &SevenDay, spend: f64, target: f64, all: f64, pl: u64, pq: u64) -> VerdictFacts {
    let multiple = spend / target;
    let share = if all > 0.0 { spend / all } else { 0.0 };
    let own = s.qualified as f64 / s.l_leads as f64;
    let product = pq as f64 / pl as f64;
    VerdictFacts {
        spent: spend != 0.0,
        over_table: multiple >= [3.0, 4.7, 6.3][s.qualified.min(2) as usize],
        alarming: spend >= 2000.0,
        leaking: own < 0.5 * product,
        proven: spend / s.qualified as f64 <= 1.5 * target,
        headroom: share < 0.4,
        spend: format!("{:.0}", spend),
        multiple: format!("{:.1}", multiple),
        own_rate: format!("{:.0}", own * 100.0),
        product_rate: format!("{:.0}", product * 100.0),
        cost: format!("{:.0}", spend / s.qualified as f64),
        share: format!("{:.0}", share * 100.0),
    }
}

#[test]
fn kill_fires_only_mature_and_over_table() {
    // 3x target, 0 qualified, mature -> kill.
    let s = s7(10, 5, 0);
    let f = facts(&s, 7500.0, 2500.0, 20_000.0, 20, 4);
    let v = verdicts(&s, 0, "", 20, 4, &f);
    assert_eq!(v[0].code, "kill", "{:?}", v);
    assert_eq!(v[0].detail, "Rs 7500 = 3.0x target with 0 qualified in 7d");
    // Same but immature (recent leads) -> never kill; falls to wait.
    let v = verdicts(&s, 3, "", 20, 4, &f);
    assert!(v.iter().all(|x| x.code != "kill"), "{:?}", v);
}

#[test]
fn zero_crm_alarm_beats_waiting() {
    let s = s7(8, 0, 0);
    let f = facts(&s, 2500.0, 2500.0, 20_000.0, 20, 4);
    let v = verdicts(&s, 0, "", 20, 4, &f);
    assert!(v.iter().any(|x| x.code == "zero_crm"), "{:?}", v);
}

#[test]
fn scale_needs_clean_slate_and_headroom() {
    let s = s7(20, 15, 3);
    let v = verdicts(&s, 1, "", 60, 10, &facts(&s, 6000.0, 2500.0, 40_000.0, 60, 10));
    assert_eq!(v[0].code, "scale", "{:?}", v);
    // Over 40% share: no scale, falls to wait.
    let v = verdicts(&s, 1, "", 60, 10, &facts(&s, 6000.0, 2500.0, 10_000.0, 60, 10));
    assert!(v.iter().all(|x| x.code != "scale"), "{:?}", v);
}

#[test]
fn archetypes_classify_names() {
    assert_eq!(archetype("Pincode Ad"), "Pincode");
    assert_eq!(archetype("Lookalike 2%"), "Lookalike");
    assert_eq!(archetype("NonAdvantage+ RK"), "Broad-Income");
    assert_eq!(archetype("Detailed Targeting NRI"), "Detailed");
}

#[test]
fn targetings_are_reported_of_seven_days() {
    let s = snapshot();
    let t = targeting::build(&s, "Namma Mane", 1, &leads_of(&s)).unwrap();
    let names: Vec<&str> = t.iter().map(|x| x.targeting.as_str()).collect();
    assert_eq!(names, vec!["Broad", "Income"]);
    let income = &t[1];
    // The day before counts in the seven days only.
    assert_eq!((income.window.impressions, income.window_7d.impressions), (3000, 12999));
    assert_eq!((income.window_crm.l_leads, income.window_7d.l_leads), (2, 2));
    assert_eq!(income.recent_l_72h, 2);
    assert!(t.iter().all(|x| x.window.spend.len() == 1));
    assert!(income.window.spend[0].len() < income.window_7d.spend.len());
    assert_eq!(targeting::product_totals(&s, "Namma Mane"), Some((3, 2)));
}

#[test]
fn specs_are_read_of_the_first_ad_set_found() {
    let adsets = json(
        r#"{"as1": {"targeting": {"age_min": 28, "age_max": 55, "genders": [1],
            "geo_locations": {"cities": [{"name": "Bengaluru", "radius": 25}]}},
            "learning_stage_info": {"status": "FAIL"}, "optimization_goal": "LEADS"}}"#,
    );
    let s = specs_for(&adsets, &vec!["none".into(), "as1".into()], &TextMap::new()).unwrap();
    assert_eq!(s.learning.as_deref(), Some("FAIL"));
    assert_eq!(s.optimization_goal.as_deref(), Some("LEADS"));
    assert!(s.age.unwrap().contains("28"));
    assert!(specs_for(&adsets, &vec!["none".into()], &TextMap::new()).is_none());
    assert!(radius_texts(&vec![]).is_empty());
}

#[test]
fn b64_matches_known_vectors() {
    assert_eq!(b64(&b"".to_vec()), "");
    assert_eq!(b64(&b"f".to_vec()), "Zg==");
    assert_eq!(b64(&b"fo".to_vec()), "Zm8=");
    assert_eq!(b64(&b"foo".to_vec()), "Zm9v");
    assert_eq!(b64(&b"foobar".to_vec()), "Zm9vYmFy");
}

#[test]
fn commas_and_slug() {
    assert_eq!(commas(0), "0");
    assert_eq!(commas(1234), "1,234");
    assert_eq!(commas(82132), "82,132");
    assert_eq!(commas(1234567), "1,234,567");
    assert_eq!(slug("Purva Sparkling Spring by Fincity"), "purva-sparkling-spring-by-fincity");
    assert_eq!(slug("A/B (test)"), "a-b-test");
}

#[test]
fn esc_neutralizes_markup() {
    assert_eq!(esc(r#"<b x="1">&"#), "&lt;b x=&quot;1&quot;&gt;&amp;");
}

#[test]
fn templates_are_filled_in_order() {
    assert_eq!(fill("{}-{}", &vec!["a", "{}"]), "a-{}");
    assert_eq!(rupees(1234567), "\u{20B9}1,234,567");
}

#[test]
fn phone_normalization_matches_python() {
    assert_eq!(norm_phone("+91 98765 43210"), "9876543210");
    assert_eq!(norm_phone("09876543210"), "9876543210");
    assert_eq!(norm_phone("98765-43210"), "9876543210");
    assert!(valid_phone("9876543210"));
    assert!(!valid_phone("1234567890"), "must start 6-9");
    assert!(!valid_phone("987654321"), "10 digits exactly");
    assert!(!valid_phone("9abcdefghi"), "digits alone");
}

#[test]
fn leads_are_sorted_into_kinds() {
    let s = snapshot();
    let w = window("2026-08-07", 1).unwrap();
    let lead = |ad: &str, phone: &str| LeadRow {
        lead_id: format!("l-{}", phone),
        ad_id: ad.into(),
        created_time: "2026-08-06T10:00:00+0530".into(),
        name: None,
        phone: Some(phone.into()),
        email: None,
    };
    let leads = vec![
        lead("a1", "123"),
        lead("a1", "9876543210"),
        lead("a1", "9000000001"),
    ];
    let contacts = vec![ContactRow { phone: Some("+91 98765 43210".into()), email: None }];
    let v = classify(&leads, &json("[]"), &contacts, &s.ads_daily, &w);
    let kinds: Vec<LeadKind> = v.iter().map(|x| x.kind).collect();
    assert_eq!(kinds, vec![LeadKind::Invalid, LeadKind::Reinquiry, LeadKind::Uncaptured]);
    let sum = split(&v, &vec!["a1".to_string()]);
    assert_eq!((sum.total, sum.invalid, sum.reinquiry, sum.uncaptured), (3, 1, 1, 1));
    assert_eq!(
        sum.total,
        sum.captured + sum.invalid + sum.duplicate + sum.reinquiry + sum.uncaptured
    );
    let by_ad = per_ad(&leads, &json("[]"), &contacts, &s.ads_daily, &w);
    assert_eq!(by_ad.len(), 1);
    assert_eq!(by_ad[0].0, "a1");
}

#[test]
fn images_are_kept_small() {
    // Not an image: as it is.
    let raw = vec![7; 200_000];
    let e = card_image(&raw, "jpg");
    assert_eq!((e.mime.as_str(), e.bytes.len()), ("image/jpeg", 200_000));
    // One that was made again is taken.
    let e = chosen(&raw, "png", Some(vec![1, 2, 3]));
    assert_eq!((e.mime.as_str(), e.bytes.len()), ("image/jpeg", 3));
    assert_eq!(ext_of(&None), "jpg");
    assert_eq!(plan(122_880, Some((721, 9))), Some(Plan { width: 720, quality: 78 }));
    assert_eq!(plan(122_880, Some((300, 9))), Some(Plan { width: 300, quality: 78 }));
    assert_eq!(plan(122_879, Some((721, 9))), None);
    assert_eq!(plan(122_880, None), None);
    // A wide image is made narrower: 1000 by 400 pixels of noise, in PNG.
    let mut state: u32 = 1;
    let img = image::RgbImage::from_fn(1000, 400, |_, _| {
        state = state.wrapping_mul(1_664_525).wrapping_add(1_013_904_223);
        let b = state.to_be_bytes();
        image::Rgb([b[0], b[1], b[2]])
    });
    let mut png = std::io::Cursor::new(Vec::new());
    image::DynamicImage::ImageRgb8(img).write_to(&mut png, image::ImageFormat::Png).unwrap();
    let png = png.into_inner();
    let e = card_image(&png, "png");
    assert_eq!(e.mime, "image/jpeg");
    assert!(e.bytes.len() < png.len());
    assert_eq!(image::load_from_memory(&e.bytes).unwrap().width(), 720);
    assert_eq!(image::load_from_memory(&e.bytes).unwrap().height(), 288);
    // One that is not too wide keeps its size and becomes a JPEG too.
    let mut state: u32 = 1;
    let img = image::RgbImage::from_fn(300, 400, |_, _| {
        state = state.wrapping_mul(1_664_525).wrapping_add(1_013_904_223);
        let b = state.to_be_bytes();
        image::Rgb([b[0], b[1], b[2]])
    });
    let mut png = std::io::Cursor::new(Vec::new());
    image::DynamicImage::ImageRgb8(img).write_to(&mut png, image::ImageFormat::Png).unwrap();
    let e = card_image(&png.into_inner(), "png");
    let back = image::load_from_memory(&e.bytes).unwrap();
    assert_eq!((e.mime.as_str(), back.width(), back.height()), ("image/jpeg", 300, 400));
    // One that is higher than JPEG allows stays as it is.
    let mut state: u32 = 1;
    let img = image::GrayImage::from_fn(2, 70_000, |_, _| {
        state = state.wrapping_mul(1_664_525).wrapping_add(1_013_904_223);
        image::Luma([state.to_be_bytes()[0]])
    });
    let mut png = std::io::Cursor::new(Vec::new());
    image::DynamicImage::ImageLuma8(img).write_to(&mut png, image::ImageFormat::Png).unwrap();
    let png = png.into_inner();
    assert!(png.len() >= 122_880);
    let e = card_image(&png, "png");
    assert_eq!((e.mime.as_str(), e.bytes.len()), ("image/png", png.len()));
}

#[test]
fn files_are_named_by_their_days() {
    assert_eq!(json_name(1, "2026-08-06", "2026-08-06"), "creative-report.json");
    assert_eq!(
        json_name(7, "2026-08-01", "2026-08-07"),
        "creative-report-2026-08-01-to-2026-08-07.json"
    );
    assert_ne!(
        html_name("B", 7, "2026-08-01", "2026-08-07"),
        html_name("B", 7, "2026-08-02", "2026-08-08")
    );
}

#[test]
fn a_workspace_keeps_its_id() {
    let kept = ensure_workspace_id(true, &Some("ws-1".into()), "/w", 5, 6).unwrap();
    assert_eq!(kept, ("ws-1".to_string(), false));
    let fresh = ensure_workspace_id(true, &None, "/w", 5, 6).unwrap();
    assert_eq!(fresh, (mint_id("/w", 5, 6), true));
    assert!(ensure_workspace_id(false, &None, "/w", 5, 6).is_err());
}

#[test]
fn every_ticket_of_the_days_is_on_a_card_or_unattributed() {
    let s = snapshot();
    let (r, _) = built(&s, "ws", "t", 1);
    let carded: u64 =
        r.products.iter().flat_map(|p| p.creatives.iter()).map(|c| c.funnel[3].count).sum();
    assert_eq!((carded, r.unattributed_l_leads), (3, 1));
}

#[test]
fn a_targeting_without_rows_in_the_days_spends_on_none() {
    let mut s = snapshot();
    for row in &mut s.ads_daily {
        if row.date_start == "2026-08-06" {
            row.date_start = "2026-08-03".into();
        }
    }
    let t = targeting::build(&s, "Namma Mane", 1, &leads_of(&s)).unwrap();
    assert!(!t.is_empty());
    for x in &t {
        assert_eq!(x.window.spend, vec![Vec::<usize>::new()]);
        assert!(!x.window_7d.spend.is_empty());
    }
}
