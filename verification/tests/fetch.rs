//! What is fetched of the ads.

use moneyball_core::fetch::adsets;
use moneyball_core::fetch::assets::{
    asset_ref, ext_for, hex, identity_key, prior_assets, prior_refs, rel_path,
};
use moneyball_core::fetch::creatives::{distinct_ads, row_from_ad, take_batch};
use moneyball_core::fetch::leads::{ad_ids, lead_field, row_from_lead, rows_from_leads};
use moneyball_core::fetch::{act_id, snapshot_text, tag_rows, time_range, window, Pull};
use moneyball_core::json::Json;
use moneyball_core::schema::{
    creatives_text, parse_creatives, AssetRef, CreativeRow, CreativesFile, CREATIVES_SCHEMA,
};
use moneyball_core::sets::{batches, sort_set};
use moneyball_core::snapshot::{load, start, SnapshotFile};

fn json(text: &str) -> Json {
    Json::parse(text).unwrap()
}

#[test]
fn ext_mapping_defaults_to_jpg() {
    assert_eq!(ext_for("image/png"), "png");
    assert_eq!(ext_for("image/jpeg; charset=binary"), "jpg");
    assert_eq!(ext_for("application/octet-stream"), "jpg");
}

#[test]
fn identity_prefers_hash_over_basename() {
    let mut r = CreativeRow {
        ad_id: "a".into(),
        image_hash: Some("h1".into()),
        image_basename: Some("x.jpg".into()),
        ..Default::default()
    };
    assert_eq!(identity_key(&r).as_deref(), Some("img:h1"));
    r.image_hash = None;
    assert_eq!(identity_key(&r).as_deref(), Some("url:x.jpg"));
    r.image_basename = None;
    assert!(identity_key(&r).is_none());
}

#[test]
fn assets_are_addressed_by_their_content() {
    let a = asset_ref(&b"same-bytes".to_vec(), "image/jpeg");
    let b = asset_ref(&b"same-bytes".to_vec(), "image/jpeg");
    assert_eq!(a.sha256, b.sha256);
    assert_eq!(a.bytes, 10);
    let path = rel_path(&a.sha256, &a.content_type);
    assert!(path.starts_with(a.sha256.get(..2).unwrap()), "{}", path);
    assert!(path.ends_with(&format!("{}.jpg", a.sha256)), "{}", path);
    let c = asset_ref(&b"other-bytes".to_vec(), "image/png");
    assert_ne!(c.sha256, a.sha256);
    // The hash of the empty text is well known.
    assert_eq!(
        asset_ref(&vec![], "image/png").sha256,
        "e3b0c44298fc1c149afbf4c8996fb92427ae41e4649b934ca495991b7852b855"
    );
    assert_eq!(hex(&vec![0, 15, 255]), "000fff");
}

#[test]
fn prior_assets_reuse_only_what_is_there() {
    let row = |hash: &str, sha: &str| CreativeRow {
        ad_id: format!("ad-{}", hash),
        image_hash: Some(hash.into()),
        asset: Some(AssetRef {
            sha256: sha.repeat(64),
            content_type: "image/jpeg".into(),
            bytes: 1,
        }),
        ..Default::default()
    };
    let file = CreativesFile {
        schema: CREATIVES_SCHEMA.into(),
        fetched_at: String::new(),
        rows: vec![row("h1", "1"), row("h2", "0")],
    };
    let refs = prior_refs(&file);
    assert_eq!(refs.len(), 2);
    let usable = prior_assets(&refs, &vec![true, false]);
    assert_eq!(usable.len(), 1);
    assert_eq!(usable[0].key, "img:h1");
    assert_eq!(usable[0].asset.sha256, "1".repeat(64));
}

#[test]
fn image_ad_maps_hash_basename_and_copy() {
    let ad = json(
        r#"{
            "name": "NM Static - Copy 2",
            "adset_id": "as1", "campaign_id": "c1",
            "effective_status": "ACTIVE",
            "created_time": "2026-06-14T11:02:00+0530",
            "creative": {
                "image_hash": "abc123",
                "image_url": "https://cdn.example/x/487213991_n.jpg?sig=zzz",
                "title": "3BHK villas", "body": "Visit us",
                "call_to_action_type": "LEARN_MORE"
            }
        }"#,
    );
    let r = row_from_ad("a1", "Namma Mane", &ad);
    assert_eq!(r.image_hash.as_deref(), Some("abc123"));
    assert_eq!(r.image_basename.as_deref(), Some("487213991_n.jpg"));
    assert!(!r.is_video && r.video_id.is_none());
    assert_eq!(r.product, "Namma Mane");
    assert_eq!(r.cta.as_deref(), Some("LEARN_MORE"));
    assert!(r.asset.is_none());
}

#[test]
fn video_identity_from_story_spec_and_afs() {
    let ad = json(
        r#"{
            "name": "NM Video",
            "creative": {
                "object_story_spec": { "video_data": { "video_id": "v9" } },
                "asset_feed_spec": { "videos": [
                    { "video_id": "v2" }, { "video_id": "v1" }, { "video_id": "v2" }
                ]},
                "thumbnail_url": "https://cdn.example/t/thumb.jpg?x=1"
            }
        }"#,
    );
    let r = row_from_ad("a2", "P", &ad);
    assert_eq!(r.video_id.as_deref(), Some("v9"));
    assert_eq!(r.afs_video_ids, vec!["v1", "v2"]); // sorted, deduped
    assert!(r.is_video);
    assert_eq!(r.image_basename.as_deref(), Some("thumb.jpg"));
}

#[test]
fn image_hash_falls_back_to_story_spec_and_afs() {
    let link = json(
        r#"{ "creative": { "object_story_spec": { "link_data": { "image_hash": "lnk1" } } } }"#,
    );
    assert_eq!(row_from_ad("a", "P", &link).image_hash.as_deref(), Some("lnk1"));
    let afs =
        json(r#"{ "creative": { "asset_feed_spec": { "images": [ { "hash": "afs1" } ] } } }"#);
    assert_eq!(row_from_ad("a", "P", &afs).image_hash.as_deref(), Some("afs1"));
}

#[test]
fn bare_ad_without_creative_still_rows() {
    let r = row_from_ad("a3", "P", &json("{}"));
    assert_eq!(r.ad_id, "a3");
    assert!(!r.is_video && r.image_hash.is_none() && r.image_url.is_none());
}

#[test]
fn written_creatives_are_read_back() {
    let file = CreativesFile {
        schema: CREATIVES_SCHEMA.into(),
        fetched_at: "2026-08-07T00:00:00Z".into(),
        rows: vec![row_from_ad("a1", "P", &json("{}"))],
    };
    let back = parse_creatives(&json(&creatives_text(&file))).unwrap();
    assert_eq!(back.schema, CREATIVES_SCHEMA);
    assert_eq!(back.rows.len(), 1);
    assert_eq!(back.rows[0].ad_id, "a1");
}

#[test]
fn field_data_matching_is_substring_and_ordered() {
    let l = json(
        r#"{
            "id": "lg1", "created_time": "2026-08-09T10:00:00+0530",
            "field_data": [
                {"name": "your_full_name", "values": ["Asha K"]},
                {"name": "phone_number", "values": ["+91 98765 43210"]},
                {"name": "work_email", "values": ["asha@example.com"]}
            ]
        }"#,
    );
    let r = row_from_lead("a1", &l);
    assert_eq!(r.lead_id, "lg1");
    assert_eq!(r.name.as_deref(), Some("Asha K"));
    assert_eq!(r.phone.as_deref(), Some("+91 98765 43210"));
    assert_eq!(r.email.as_deref(), Some("asha@example.com"));
    assert_eq!(lead_field(&l, "email").as_deref(), Some("asha@example.com"));
    assert_eq!(rows_from_leads("a1", &vec![l]).len(), 1);
}

#[test]
fn missing_fields_stay_none_never_panic() {
    let r = row_from_lead("a1", &json(r#"{"id": "lg2"}"#));
    assert!(r.name.is_none() && r.phone.is_none() && r.email.is_none());
}

#[test]
fn written_snapshot_round_trips_through_reader() {
    let rows = vec![json(
        r#"{
            "campaign_id": "c1",
            "campaign_name": "Camp One",
            "adset_id": "as1",
            "adset_name": "Set One",
            "ad_id": "a1",
            "ad_name": "Ad One",
            "spend": "123.45",
            "impressions": "1000",
            "clicks": "50",
            "inline_link_clicks": "40",
            "actions": [{"action_type": "lead", "value": "3"}],
            "date_start": "2026-07-15",
            "date_stop": "2026-07-15",
            "_product": "Prod A"
        }"#,
    )];
    let mut snap = start("/w/snap/2026-07-16", &Some("2026-07-16".into())).unwrap();
    load(&mut snap, SnapshotFile::AdsDaily, &snapshot_text(&rows)).unwrap();
    assert_eq!(snap.date, "2026-07-16");
    assert_eq!(snap.ads_daily.len(), 1);
    let r = &snap.ads_daily[0];
    assert_eq!(r._product, "Prod A");
    assert_eq!(r.campaign_id, "c1");
    assert!((r.spend.parse::<f64>().unwrap() - 123.45).abs() < 1e-9);
    assert_eq!(r.actions.len(), 1);
    assert_eq!((r.impressions_num(), r.clicks_num()), (1000, 40));
}

#[test]
fn rows_are_pulled_page_by_page() {
    let mut p = Pull::new("insights", "https://g/1");
    let first = json(r#"{"data": [{"ad_id": "1"}], "paging": {"next": "https://g/2"}}"#);
    assert!(p.step(true, "200 OK", &first).unwrap());
    let last = json(r#"{"data": [{"ad_id": "2"}]}"#);
    assert!(!p.step(true, "200 OK", &last).unwrap());
    assert_eq!(p.rows.len(), 2);
    let mut q = Pull::new("insights", "https://g/1");
    let refused = json(r#"{"error": {"message": "bad token"}}"#);
    assert!(q.step(false, "400 Bad Request", &refused).is_err());
}

#[test]
fn fetched_days_end_yesterday() {
    // 2026-07-16 is the day 739813.
    let w = window(739_813, 7).unwrap();
    assert_eq!((w.since.as_str(), w.until.as_str()), ("2026-07-09", "2026-07-15"));
    let one = window(739_813, 0).unwrap();
    assert_eq!((one.since.as_str(), one.until.as_str()), ("2026-07-15", "2026-07-15"));
    assert!(window(i32::MIN, 7).is_none());
    assert_eq!(act_id("12"), "act_12");
    assert_eq!(act_id("act_12"), "act_12");
    assert!(time_range("2026-07-09", "2026-07-15").contains("2026-07-09"));
}

#[test]
fn ads_are_distinct_and_in_order() {
    let rows = tag_rows(
        &vec![
            json(r#"{"ad_id": "b", "adset_id": "s2"}"#),
            json(r#"{"ad_id": "a", "adset_id": "s1"}"#),
            json(r#"{"ad_id": "b", "adset_id": "s2"}"#),
        ],
        "P",
    );
    let ads = distinct_ads(&rows);
    assert_eq!(ads, vec![("a".to_string(), "P".to_string()), ("b".to_string(), "P".to_string())]);
    assert_eq!(ad_ids(&rows), vec!["a", "b"]);
    assert_eq!(adsets::adset_ids(&rows), vec!["s1", "s2"]);
    let batch = take_batch(
        &vec!["a".to_string()],
        &ads,
        true,
        "200 OK",
        &json(r#"{"a": {"name": "Ad A"}}"#),
    )
    .unwrap();
    assert_eq!(batch.len(), 1);
    assert_eq!(batch[0].ad_name, "Ad A");
    let sets = adsets::take_batch(json("{}"), true, "200 OK", &json(r#"{"s1": {"x": 1}}"#)).unwrap();
    assert!(sets.get("s1").is_some());
}

#[test]
fn ids_are_asked_for_in_batches() {
    let ids: Vec<String> = (0..120).map(|i| format!("{:03}", i)).collect();
    let b = batches(&ids);
    assert_eq!(b.iter().map(|x| x.len()).collect::<Vec<_>>(), vec![50, 50, 20]);
    assert_eq!(b.concat(), ids);
    let set = sort_set(&vec!["b".to_string(), "a".to_string(), "b".to_string()]);
    assert_eq!(set, vec!["a", "b"]);
}

#[test]
fn creatives_of_major_one_alone_are_read() {
    let file = |schema: &str| json(&format!(
        r#"{{"schema": "moneyball.creatives/{}", "fetched_at": "", "rows": []}}"#,
        schema
    ));
    assert!(parse_creatives(&file("1")).is_some());
    assert!(parse_creatives(&file("1.2")).is_some());
    assert!(parse_creatives(&file("10")).is_none());
    assert!(parse_creatives(&file("11")).is_none());
    assert!(parse_creatives(&file("2")).is_none());
}

#[test]
fn rows_that_do_not_read_are_left_out() {
    let file = json(
        r#"{"schema": "moneyball.creatives/1", "fetched_at": "t",
            "rows": [{"ad_id": "1"}, {"no_ad_id": true}]}"#,
    );
    let back = parse_creatives(&file).unwrap();
    assert_eq!((back.schema.as_str(), back.fetched_at.as_str()), ("moneyball.creatives/1", "t"));
    assert_eq!(back.rows.len(), 1);
    assert_eq!(back.rows[0].ad_id, "1");
}
