//! The facts of the creatives of a snapshot, one row for each ad.

use crate::error::Error;
use crate::fetch::{refusal, refused};
use crate::json::{
    find_in, find_key, lemma_list_view, list_in, list_view, member, opt_json, pairs_view, pointer,
    text_in, Json, JsonV,
};
use crate::provider::{lookup, lookup_in, text_pairs};
use crate::schema::{rows_view, CreativeRow, CreativeRowV};
use crate::sets::{sort_set, sorted_set};
use crate::strs::{
    less, opt_view, push_text, same, split, split_on, split_once, split_once_spec, text_lt, views,
};
use vstd::prelude::*;

verus! {

/// What is asked for of each ad.
pub const AD_FIELDS: &'static str = "name,adset_id,campaign_id,effective_status,created_time,creative{image_hash,image_url,thumbnail_url,video_id,object_story_spec,asset_feed_spec,title,body,call_to_action_type,instagram_permalink_url}";

/// Ads and their products in the order of the ids, with one more ad where it is not there yet.
pub open spec fn with_ad(
    ads: Seq<(Seq<char>, Seq<char>)>,
    id: Seq<char>,
    product: Seq<char>,
) -> Seq<(Seq<char>, Seq<char>)>
    decreases ads.len(),
{
    if ads.len() == 0 {
        seq![(id, product)]
    } else if ads.last().0 == id {
        ads
    } else if text_lt(ads.last().0, id) {
        ads.push((id, product))
    } else {
        with_ad(ads.drop_last(), id, product).push(ads.last())
    }
}

/// The ads of the rows in the order of their ids, each with the product of its first row.
pub open spec fn ads_of(rows: Seq<JsonV>) -> Seq<(Seq<char>, Seq<char>)>
    decreases rows.len(),
{
    if rows.len() == 0 {
        Seq::empty()
    } else {
        let before = ads_of(rows.drop_last());
        match text_in(member(rows.last(), "ad_id"@)) {
            Some(id) => with_ad(
                before,
                id,
                crate::json::text_or_empty(member(rows.last(), "_product"@)),
            ),
            None => before,
        }
    }
}

fn put_ad(v: &mut Vec<(String, String)>, id: &str, product: &str)
    ensures
        text_pairs(final(v)@) == with_ad(text_pairs(old(v)@), id@, product@),
{
    let ghost all = text_pairs(v@);
    let ghost given = v@;
    let mut k: usize = v.len();
    assert(all.take(k as int) =~= all);
    assert(with_ad(all, id@, product@) + all.skip(k as int) =~= with_ad(all, id@, product@));
    while k > 0
        invariant_except_break
            with_ad(all.take(k as int), id@, product@) + all.skip(k as int) == with_ad(
                all,
                id@,
                product@,
            ),
        invariant
            k <= v@.len(),
            v@ == given,
            all == text_pairs(given),
        ensures
            all.take(k as int).push((id@, product@)) + all.skip(k as int) == with_ad(
                all,
                id@,
                product@,
            ),
        decreases k,
    {
        let ghost head = all.take(k as int);
        assert(head.drop_last() =~= all.take(k - 1));
        assert(all[k - 1] == (v@[k - 1].0@, v@[k - 1].1@));
        assert(head.last() == all[k - 1]);
        if same(v[k - 1].0.as_str(), id) {
            assert(head + all.skip(k as int) =~= all);
            return;
        }
        if less(v[k - 1].0.as_str(), id) {
            break;
        }
        assert(with_ad(all.take(k - 1), id@, product@) + all.skip(k - 1) =~= with_ad(
            head,
            id@,
            product@,
        ) + all.skip(k as int));
        k -= 1;
        if k == 0 {
            assert(all.take(0) =~= Seq::empty());
            assert(seq![(id@, product@)] =~= all.take(0).push((id@, product@)));
        }
    }
    proof {
        if k == 0 {
            assert(all.take(0) =~= Seq::empty());
            assert(seq![(id@, product@)] =~= all.take(0).push((id@, product@)));
        }
    }
    v.insert(k, (id.to_owned(), product.to_owned()));
    assert(text_pairs(v@) =~= all.take(k as int).push((id@, product@)) + all.skip(k as int));
}

/// Lists the ads of rows with their products.
pub fn distinct_ads(rows: &Vec<Json>) -> (r: Vec<(String, String)>)
    ensures
        text_pairs(r@) == ads_of(list_view(rows@)),
{
    let ghost all = list_view(rows@);
    let mut out: Vec<(String, String)> = Vec::new();
    let mut i: usize = 0;
    assert(text_pairs(out@) =~= Seq::empty());
    assert(all.take(0) =~= Seq::empty());
    while i < rows.len()
        invariant
            i <= rows@.len(),
            all == list_view(rows@),
            text_pairs(out@) == ads_of(all.take(i as int)),
        decreases rows.len() - i,
    {
        assert(all.take(i + 1).drop_last() =~= all.take(i as int));
        assert(all[i as int] == rows@[i as int]@);
        match rows[i].get("ad_id") {
            Some(v) => match v.as_str() {
                Some(id) => {
                    let product = crate::json::str_or_empty(rows[i].get("_product"));
                    put_ad(&mut out, id, product.as_str());
                },
                None => {},
            },
            None => {},
        }
        i += 1;
    }
    assert(all.take(i as int) =~= all);
    out
}

// Rows

/// The text at a place below a document, if there is one.
pub open spec fn text_under(j: JsonV, path: Seq<char>) -> Option<Seq<char>> {
    text_in(pointer(j, path))
}

pub open spec fn or_else(a: Option<Seq<char>>, b: Option<Seq<char>>) -> Option<Seq<char>> {
    if a is Some {
        a
    } else {
        b
    }
}

pub open spec fn creative_part(ad: JsonV) -> JsonV {
    match member(ad, "creative"@) {
        Some(c) => c,
        None => JsonV::Null,
    }
}

/// The ids of the videos of a list.
pub open spec fn video_ids(items: Seq<JsonV>) -> Seq<Seq<char>>
    decreases items.len(),
{
    if items.len() == 0 {
        Seq::empty()
    } else {
        let before = video_ids(items.drop_last());
        match text_in(member(items.last(), "video_id"@)) {
            Some(s) => before.push(s),
            None => before,
        }
    }
}

pub open spec fn feed_videos(creative: JsonV) -> Seq<Seq<char>> {
    match list_in(pointer(creative, "/asset_feed_spec/videos"@)) {
        Some(items) => sorted_set(video_ids(items)),
        None => Seq::empty(),
    }
}

/// The name of the file of an address, without what is asked of it.
pub open spec fn basename_of(url: Seq<char>) -> Seq<char> {
    let path = match split_once_spec(url, '?') {
        Some((p, _)) => p,
        None => url,
    };
    split_on(path, '/').last()
}

fn url_basename(url: &str) -> (r: String)
    ensures
        r@ == basename_of(url@),
{
    let path = match split_once(url, '?') {
        Some((p, _)) => p,
        None => url.to_owned(),
    };
    let parts = split(path.as_str(), '/');
    assert(views(parts@).last() == parts@.last()@);
    parts[parts.len() - 1].clone()
}

pub open spec fn opt_basename(url: Option<Seq<char>>) -> Option<Seq<char>> {
    match url {
        Some(u) => Some(basename_of(u)),
        None => None,
    }
}

/// The row of an ad, as the platform describes it.
pub open spec fn row_of_ad(ad_id: Seq<char>, product: Seq<char>, ad: JsonV) -> CreativeRowV {
    let c = creative_part(ad);
    let video_id = or_else(
        text_in(member(c, "video_id"@)),
        text_under(c, "/object_story_spec/video_data/video_id"@),
    );
    let image_url = or_else(
        text_in(member(c, "image_url"@)),
        text_in(member(c, "thumbnail_url"@)),
    );
    CreativeRowV {
        ad_id,
        adset_id: crate::json::text_or_empty(member(ad, "adset_id"@)),
        campaign_id: crate::json::text_or_empty(member(ad, "campaign_id"@)),
        ad_name: crate::json::text_or_empty(member(ad, "name"@)),
        product,
        image_hash: or_else(
            or_else(
                text_in(member(c, "image_hash"@)),
                text_under(c, "/object_story_spec/link_data/image_hash"@),
            ),
            text_under(c, "/asset_feed_spec/images/0/hash"@),
        ),
        video_id,
        afs_video_ids: feed_videos(c),
        image_basename: opt_basename(image_url),
        is_video: video_id is Some || feed_videos(c).len() > 0,
        status: text_in(member(ad, "effective_status"@)),
        created_time: text_in(member(ad, "created_time"@)),
        title: text_in(member(c, "title"@)),
        body: text_in(member(c, "body"@)),
        cta: text_in(member(c, "call_to_action_type"@)),
        permalink: text_in(member(c, "instagram_permalink_url"@)),
        image_url,
        asset: None,
    }
}

fn text_of(o: Option<&Json>) -> (r: Option<String>)
    ensures
        opt_view(r) == text_in(opt_json(o)),
{
    match o {
        Some(v) => match v.as_str() {
            Some(s) => Some(s.to_owned()),
            None => None,
        },
        None => None,
    }
}

fn first_of(a: Option<String>, b: Option<String>) -> (r: Option<String>)
    ensures
        opt_view(r) == or_else(opt_view(a), opt_view(b)),
{
    if a.is_some() {
        a
    } else {
        b
    }
}

fn take_feed_videos(c: &Json) -> (r: Vec<String>)
    ensures
        views(r@) == feed_videos(c@),
{
    let mut out: Vec<String> = Vec::new();
    assert(views(out@) =~= Seq::empty());
    match c.pointer("/asset_feed_spec/videos") {
        None => out,
        Some(l) => match l.as_array() {
            None => out,
            Some(items) => {
                let ghost all = list_view(items@);
                let mut i: usize = 0;
                assert(all.take(0) =~= Seq::empty());
                while i < items.len()
                    invariant
                        i <= items@.len(),
                        all == list_view(items@),
                        views(out@) == video_ids(all.take(i as int)),
                    decreases items.len() - i,
                {
                    assert(all.take(i + 1).drop_last() =~= all.take(i as int));
                    assert(all[i as int] == items@[i as int]@);
                    match text_of(items[i].get("video_id")) {
                        Some(s) => {
                            push_text(&mut out, s);
                        },
                        None => {},
                    }
                    i += 1;
                }
                assert(all.take(i as int) =~= all);
                sort_set(&out)
            },
        },
    }
}

/// Makes the row of an ad. What is missing stays out of it.
pub fn row_from_ad(ad_id: &str, product: &str, ad: &Json) -> (r: CreativeRow)
    ensures
        r@ == row_of_ad(ad_id@, product@, ad@),
{
    let none = Json::Null;
    let c = match ad.get("creative") {
        Some(c) => c,
        None => &none,
    };
    let video_id = first_of(
        text_of(c.get("video_id")),
        text_of(c.pointer("/object_story_spec/video_data/video_id")),
    );
    let afs_video_ids = take_feed_videos(c);
    assert(views(afs_video_ids@).len() == afs_video_ids@.len());
    let image_hash = first_of(
        first_of(
            text_of(c.get("image_hash")),
            text_of(c.pointer("/object_story_spec/link_data/image_hash")),
        ),
        text_of(c.pointer("/asset_feed_spec/images/0/hash")),
    );
    let image_url = first_of(text_of(c.get("image_url")), text_of(c.get("thumbnail_url")));
    let image_basename = match &image_url {
        Some(u) => Some(url_basename(u.as_str())),
        None => None,
    };
    let is_video = video_id.is_some() || afs_video_ids.len() > 0;
    CreativeRow {
        ad_id: ad_id.to_owned(),
        adset_id: crate::json::str_or_empty(ad.get("adset_id")),
        campaign_id: crate::json::str_or_empty(ad.get("campaign_id")),
        ad_name: crate::json::str_or_empty(ad.get("name")),
        product: product.to_owned(),
        image_hash,
        video_id,
        afs_video_ids,
        image_basename,
        is_video,
        status: text_of(ad.get("effective_status")),
        created_time: text_of(ad.get("created_time")),
        title: text_of(c.get("title")),
        body: text_of(c.get("body")),
        cta: text_of(c.get("call_to_action_type")),
        permalink: text_of(c.get("instagram_permalink_url")),
        image_url,
        asset: None,
    }
}

/// The rows that the reply to a batch gives; an ad that is not in it is passed over.
pub open spec fn batch_rows(
    ids: Seq<Seq<char>>,
    ads: Seq<(Seq<char>, Seq<char>)>,
    members: Seq<(Seq<char>, JsonV)>,
) -> Seq<CreativeRowV>
    decreases ids.len(),
{
    if ids.len() == 0 {
        Seq::empty()
    } else {
        let before = batch_rows(ids.drop_last(), ads, members);
        let id = ids.last();
        match find_key(members, id) {
            Some(ad) => before.push(
                row_of_ad(
                    id,
                    match lookup(ads, id) {
                        Some(p) => p,
                        None => Seq::empty(),
                    },
                    ad,
                ),
            ),
            None => before,
        }
    }
}

/// Takes in the reply to a batch.
pub fn take_batch(
    ids: &Vec<String>,
    ads: &Vec<(String, String)>,
    success: bool,
    status: &str,
    body: &Json,
) -> (r: Result<Vec<CreativeRow>, Error>)
    ensures
        match r {
            Ok(rows) => success && body@ is Object && rows_view(rows@) == batch_rows(
                views(ids@),
                text_pairs(ads@),
                body@->Object_0,
            ),
            Err(e) => (e matches Error::Meta(m) && if !success {
                m@ == refusal(status@, "creatives"@, body@)
            } else {
                !(body@ is Object) && m@ == "creatives: response is not an object"@
            }),
        },
{
    if !success {
        return Err(refused(status, "creatives", body));
    }
    proof {
        lemma_list_view(*body);
    }
    match body {
        Json::Object(pairs) => {
            let ghost all = views(ids@);
            let ghost members = pairs_view(pairs@);
            let mut out: Vec<CreativeRow> = Vec::new();
            let mut i: usize = 0;
            assert(rows_view(out@) =~= Seq::empty());
            assert(all.take(0) =~= Seq::empty());
            while i < ids.len()
                invariant
                    i <= ids@.len(),
                    all == views(ids@),
                    members == pairs_view(pairs@),
                    rows_view(out@) == batch_rows(all.take(i as int), text_pairs(ads@), members),
                decreases ids.len() - i,
            {
                assert(all.take(i + 1).drop_last() =~= all.take(i as int));
                assert(all[i as int] == ids@[i as int]@);
                match find_in(pairs, ids[i].as_str()) {
                    Some(ad) => {
                        let row = match lookup_in(ads, ids[i].as_str()) {
                            Some(p) => row_from_ad(ids[i].as_str(), p.as_str(), ad),
                            None => {
                                let none = String::new();
                                row_from_ad(ids[i].as_str(), none.as_str(), ad)
                            },
                        };
                        assert(rows_view(out@.push(row)) =~= rows_view(out@).push(row@));
                        out.push(row);
                    },
                    None => {},
                }
                i += 1;
            }
            assert(all.take(i as int) =~= all);
            Ok(out)
        },
        _ => Err(Error::Meta("creatives: response is not an object".to_owned())),
    }
}

} // verus!
