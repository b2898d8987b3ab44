//! What is asked of the platform, and what its replies say.

use crate::fetch::adsets::{merged, texts_under};
use crate::fetch::assets::{
    ext_of, fan_out, has_key, identity_of, path_of, prior_of, usable, PriorAssetV,
};
use crate::fetch::creatives::{
    ads_of, basename_of, batch_rows, feed_videos, row_of_ad, video_ids, with_ad,
};
use crate::fetch::leads::{first_value, row_of_lead, rows_of_leads};
use crate::fetch::{
    act_of, first_day, page_next, page_rows, platform_message, pulled, tagged, PullV,
};
use crate::json::laws::{below, law_name_and_first, law_three_names, law_two_names};
use crate::json::{find_key, member, JsonV};
use crate::meta::{account_of, accounts_of, code_text, stored_id};
use crate::provider::lookup;
use crate::schema::CreativeRowV;
use crate::sets::{lemma_lt_irreflexive, lemma_lt_total, lemma_lt_transitive};
use crate::strs::laws::{law_cut_once_at_the_first, law_pieces_are_joined_by_the_character};
use crate::strs::{dec, has_text, lowercase_of, occurs_at, split_on, text_lt, trimmed};
use vstd::prelude::*;

verus! {

// Asking

/// A fetch of some days ends on the day before it is made, and covers just so many days; none are
/// one.
pub proof fn law_fetch_ends_the_day_before(today: int, days: nat)
    ensures
        first_day(today, 0) == today - 1,
        days > 0 ==> (today - 1) - first_day(today, days) + 1 == days,
{
}

/// An account is asked for with its prefix, and stored without it; either way it is the same
/// account.
pub proof fn law_accounts_have_one_prefix(id: Seq<char>)
    ensures
        act_of("act_"@ + id) == "act_"@ + id,
        !occurs_at(id, "act_"@, 0) ==> act_of(id) == "act_"@ + id && stored_id(act_of(id)) == id,
        stored_id("act_"@ + id) == id,
{
    reveal_strlit("act_");
    let a = "act_"@ + id;
    assert(a.subrange(0, 4) =~= "act_"@);
    assert(a.skip(4) =~= id);
}

/// The rows of a page are put behind those that came before, and the address of the next page is
/// the one that the page names.
pub proof fn law_pages_add_up(p: PullV, body: JsonV, rows: Seq<JsonV>, next: Seq<char>)
    ensures
        member(body, "data"@) == Some(JsonV::List(rows)) ==> page_rows(body) == rows && pulled(
            p,
            body,
        ).rows == p.rows + rows,
        member(body, "data"@) is None ==> page_rows(body).len() == 0,
        below(member(body, "paging"@), "next"@) == Some(JsonV::Text(next)) ==> page_next(body)
            == Some(next) && pulled(p, body).url == next && !pulled(p, body).first,
        below(member(body, "paging"@), "next"@) is None ==> page_next(body) is None && pulled(
            p,
            body,
        ).url == p.url,
        pulled(p, body).what == p.what,
{
    reveal_strlit("paging");
    reveal_strlit("next");
    reveal_strlit("/paging/next");
    assert("/paging/next"@ =~= seq!['/'] + "paging"@ + seq!['/'] + "next"@);
    law_two_names(body, "/paging/next"@, "paging"@, "next"@);
}

/// Every row that is an object gets its product, and keeps its other members.
pub proof fn law_rows_are_tagged(rows: Seq<JsonV>, product: Seq<char>, i: int, k: Seq<char>)
    requires
        0 <= i < rows.len(),
        rows[i] is Object,
    ensures
        tagged(rows, product).len() == rows.len(),
        member(tagged(rows, product)[i], "_product"@) == Some(JsonV::Text(product)),
        k != "_product"@ ==> member(tagged(rows, product)[i], k) == member(rows[i], k),
{
    match rows[i] {
        JsonV::Object(pairs) => {
            crate::fetch::law_put_member_is_found(
                pairs,
                "_product"@,
                JsonV::Text(product),
                "_product"@,
            );
            crate::fetch::law_put_member_is_found(pairs, "_product"@, JsonV::Text(product), k);
        },
        _ => {},
    }
}

/// What the platform says went wrong is the message of its error.
pub proof fn law_platform_tells_its_error(body: JsonV, m: Seq<char>)
    ensures
        below(member(body, "error"@), "message"@) == Some(JsonV::Text(m)) ==> platform_message(body)
            == m,
        member(body, "error"@) is None ==> platform_message(body) == "unknown error"@,
        code_text(None) == "None"@,
        code_text(Some(190)) == "Some("@ + dec(190) + ")"@,
{
    reveal_strlit("error");
    reveal_strlit("message");
    reveal_strlit("/error/message");
    assert("/error/message"@ =~= seq!['/'] + "error"@ + seq!['/'] + "message"@);
    law_two_names(body, "/error/message"@, "error"@, "message"@);
}

/// An account has an id and a name, and a status where one is given.
pub proof fn law_account_has_its_fields(j: JsonV)
    requires
        j is Object,
        account_of(j) is Some,
    ensures
        ({
            let a = account_of(j)->0;
            &&& member(j, "id"@) == Some(JsonV::Text(a.id))
            &&& member(j, "name"@) == Some(JsonV::Text(a.name))
            &&& member(j, "account_status"@) is None ==> a.account_status is None
            &&& member(j, "account_status"@) matches Some(JsonV::Number(n)) ==> (
            a.account_status matches Some(s) && n.unsigned == Some(s as u64))
        }),
{
}

/// The accounts of a reply are read one by one, where every one of them reads.
pub proof fn law_accounts_are_read_one_by_one(items: Seq<JsonV>)
    ensures
        accounts_of(items) is Some <==> forall|i: int|
            0 <= i < items.len() ==> account_of(#[trigger] items[i]) is Some,
        accounts_of(items) matches Some(v) ==> v.len() == items.len() && forall|i: int|
            0 <= i < v.len() ==> Some(#[trigger] v[i]) == account_of(items[i]),
    decreases items.len(),
{
    if items.len() > 0 {
        let rest = items.drop_last();
        law_accounts_are_read_one_by_one(rest);
        assert(forall|i: int| 0 <= i < rest.len() ==> rest[i] == #[trigger] items[i]);
        assert(forall|i: int| 0 <= i < rest.len() ==> #[trigger] rest[i] == items[i]);
        assert(items[items.len() - 1] == items.last());
    }
}

// Leads

/// Whether a field of a form is of a sort and has the value: its name holds the word, letters
/// aside, and its first value is this one, which is not empty.
pub open spec fn gives(f: JsonV, word: Seq<char>, value: Seq<char>) -> bool {
    &&& has_text(
        lowercase_of(
            match member(f, "name"@) {
                Some(JsonV::Text(s)) => s,
                _ => Seq::empty(),
            },
        ),
        word,
    )
    &&& value.len() > 0
    &&& member(f, "values"@) matches Some(JsonV::List(v)) && v.len() > 0 && v[0] == JsonV::Text(
        value,
    )
}

proof fn lemma_gives(f: JsonV, word: Seq<char>, value: Seq<char>)
    requires
        gives(f, word, value),
    ensures
        crate::fetch::leads::field_value(f, word) == Some(value),
{
    reveal_strlit("values");
    reveal_strlit("0");
    reveal_strlit("/values/0");
    assert("/values/0"@ =~= seq!['/'] + "values"@ + seq!['/'] + "0"@);
    match member(f, "values"@) {
        Some(JsonV::List(v)) => {
            law_name_and_first(f, "/values/0"@, "values"@, v);
        },
        _ => {},
    }
}

proof fn lemma_first_value(fields: Seq<JsonV>, word: Seq<char>, from: int, k: int, value: Seq<char>)
    requires
        0 <= from <= k < fields.len(),
        gives(fields[k], word, value),
        forall|i: int|
            from <= i < k ==> crate::fetch::leads::field_value(#[trigger] fields[i], word) is None,
    ensures
        first_value(fields, word, from) == Some(value),
    decreases k - from,
{
    lemma_gives(fields[k], word, value);
    if from < k {
        assert(crate::fetch::leads::field_value(fields[from], word) is None);
        lemma_first_value(fields, word, from + 1, k, value);
    }
}

/// A lead has the id and the time that the platform gives, and its ad. Its phone and its mail
/// address are those of the first field of that sort that has a value.
pub proof fn law_lead_has_its_fields(
    ad_id: Seq<char>,
    l: JsonV,
    fields: Seq<JsonV>,
    k: int,
    value: Seq<char>,
)
    requires
        member(l, "field_data"@) == Some(JsonV::List(fields)),
        0 <= k < fields.len(),
    ensures
        ({
            let r = row_of_lead(ad_id, l);
            &&& r.ad_id == ad_id
            &&& member(l, "id"@) matches Some(JsonV::Text(s)) ==> r.lead_id == s
            &&& member(l, "created_time"@) matches Some(JsonV::Text(s)) ==> r.created_time == s
            &&& gives(fields[k], "phone"@, value) && (forall|i: int|
                0 <= i < k ==> crate::fetch::leads::field_value(
                    #[trigger] fields[i],
                    "phone"@,
                ) is None) ==> r.phone == Some(value)
            &&& gives(fields[k], "email"@, value) && (forall|i: int|
                0 <= i < k ==> crate::fetch::leads::field_value(
                    #[trigger] fields[i],
                    "email"@,
                ) is None) ==> r.email == Some(value)
            &&& gives(fields[k], "full_name"@, value) && (forall|i: int|
                0 <= i < k ==> crate::fetch::leads::field_value(
                    #[trigger] fields[i],
                    "full_name"@,
                ) is None) ==> r.name == Some(value)
        }),
{
    if gives(fields[k], "phone"@, value) && (forall|i: int|
        0 <= i < k ==> crate::fetch::leads::field_value(#[trigger] fields[i], "phone"@) is None) {
        lemma_first_value(fields, "phone"@, 0, k, value);
        assert(seq!["phone"@][0] == "phone"@);
    }
    if gives(fields[k], "email"@, value) && (forall|i: int|
        0 <= i < k ==> crate::fetch::leads::field_value(#[trigger] fields[i], "email"@) is None) {
        lemma_first_value(fields, "email"@, 0, k, value);
        assert(seq!["email"@][0] == "email"@);
    }
    if gives(fields[k], "full_name"@, value) && (forall|i: int|
        0 <= i < k ==> crate::fetch::leads::field_value(
            #[trigger] fields[i],
            "full_name"@,
        ) is None) {
        lemma_first_value(fields, "full_name"@, 0, k, value);
        assert(seq!["full_name"@, "full name"@, "name"@][0] == "full_name"@);
    }
}

/// Every lead of a reply gives a row, in its order.
pub proof fn law_every_lead_gives_a_row(ad_id: Seq<char>, items: Seq<JsonV>, i: int)
    requires
        0 <= i < items.len(),
    ensures
        rows_of_leads(ad_id, items).len() == items.len(),
        rows_of_leads(ad_id, items)[i] == row_of_lead(ad_id, items[i]),
{
}

// Creatives

/// The text of a member, where it is one.
pub open spec fn text_of(o: Option<JsonV>) -> Option<Seq<char>> {
    match o {
        Some(JsonV::Text(s)) => Some(s),
        _ => None,
    }
}

/// What is told of an ad stands in the ad itself: where it belongs, its name, its status and its
/// time.
pub proof fn law_ad_tells_of_itself(ad_id: Seq<char>, product: Seq<char>, ad: JsonV)
    ensures
        ({
            let r = row_of_ad(ad_id, product, ad);
            &&& r.ad_id == ad_id && r.product == product && r.asset is None
            &&& member(ad, "adset_id"@) matches Some(JsonV::Text(s)) ==> r.adset_id == s
            &&& member(ad, "campaign_id"@) matches Some(JsonV::Text(s)) ==> r.campaign_id == s
            &&& member(ad, "name"@) matches Some(JsonV::Text(s)) ==> r.ad_name == s
            &&& r.status == text_of(member(ad, "effective_status"@))
            &&& r.created_time == text_of(member(ad, "created_time"@))
        }),
{
}

/// What is told of a creative stands in it: its texts and its link; its image is the one that is
/// given, else its thumbnail; its video is its own, else that of its story; and it is a video where
/// it has one, or its feed has.
pub proof fn law_creative_tells_of_itself(
    ad_id: Seq<char>,
    product: Seq<char>,
    ad: JsonV,
    c: JsonV,
)
    requires
        member(ad, "creative"@) == Some(c),
    ensures
        ({
            let r = row_of_ad(ad_id, product, ad);
            let story = member(c, "object_story_spec"@);
            let own_video = text_of(member(c, "video_id"@));
            let story_video = text_of(below(below(story, "video_data"@), "video_id"@));
            let own_hash = text_of(member(c, "image_hash"@));
            let story_hash = text_of(below(below(story, "link_data"@), "image_hash"@));
            let own_url = text_of(member(c, "image_url"@));
            &&& r.title == text_of(member(c, "title"@))
            &&& r.body == text_of(member(c, "body"@))
            &&& r.cta == text_of(member(c, "call_to_action_type"@))
            &&& r.permalink == text_of(member(c, "instagram_permalink_url"@))
            &&& own_url is Some ==> r.image_url == own_url
            &&& own_url is None ==> r.image_url == text_of(member(c, "thumbnail_url"@))
            &&& r.image_url matches Some(u) ==> r.image_basename == Some(basename_of(u))
            &&& r.image_url is None ==> r.image_basename is None
            &&& own_video is Some ==> r.video_id == own_video
            &&& own_video is None ==> r.video_id == story_video
            &&& own_hash is Some ==> r.image_hash == own_hash
            &&& own_hash is None && story_hash is Some ==> r.image_hash == story_hash
            &&& r.is_video <==> r.video_id is Some || r.afs_video_ids.len() > 0
        }),
{
    reveal_strlit("object_story_spec");
    reveal_strlit("video_data");
    reveal_strlit("link_data");
    reveal_strlit("video_id");
    reveal_strlit("image_hash");
    reveal_strlit("/object_story_spec/video_data/video_id");
    reveal_strlit("/object_story_spec/link_data/image_hash");
    assert("/object_story_spec/video_data/video_id"@ =~= seq!['/'] + "object_story_spec"@ + seq!['/']
        + "video_data"@ + seq!['/'] + "video_id"@);
    assert("/object_story_spec/link_data/image_hash"@ =~= seq!['/'] + "object_story_spec"@ + seq![
        '/',
    ] + "link_data"@ + seq!['/'] + "image_hash"@);
    law_three_names(
        c,
        "/object_story_spec/video_data/video_id"@,
        "object_story_spec"@,
        "video_data"@,
        "video_id"@,
    );
    law_three_names(
        c,
        "/object_story_spec/link_data/image_hash"@,
        "object_story_spec"@,
        "link_data"@,
        "image_hash"@,
    );
}

/// The videos of a feed are those that its list names.
pub proof fn law_feed_names_its_videos(c: JsonV, items: Seq<JsonV>, id: Seq<char>)
    requires
        below(member(c, "asset_feed_spec"@), "videos"@) == Some(JsonV::List(items)),
    ensures
        feed_videos(c).contains(id) <==> exists|i: int|
            0 <= i < items.len() && member(#[trigger] items[i], "video_id"@) == Some(
                JsonV::Text(id),
            ),
{
    reveal_strlit("asset_feed_spec");
    reveal_strlit("videos");
    reveal_strlit("/asset_feed_spec/videos");
    assert("/asset_feed_spec/videos"@ =~= seq!['/'] + "asset_feed_spec"@ + seq!['/'] + "videos"@);
    law_two_names(c, "/asset_feed_spec/videos"@, "asset_feed_spec"@, "videos"@);
    crate::sets::law_sorted_set(video_ids(items));
    lemma_video_ids(items, id);
}

proof fn lemma_video_ids(items: Seq<JsonV>, id: Seq<char>)
    ensures
        video_ids(items).contains(id) <==> exists|i: int|
            0 <= i < items.len() && member(#[trigger] items[i], "video_id"@) == Some(
                JsonV::Text(id),
            ),
    decreases items.len(),
{
    if items.len() > 0 {
        let rest = items.drop_last();
        let before = video_ids(rest);
        let now = video_ids(items);
        lemma_video_ids(rest, id);
        assert(forall|i: int| 0 <= i < rest.len() ==> rest[i] == #[trigger] items[i]);
        assert(forall|i: int| 0 <= i < rest.len() ==> #[trigger] rest[i] == items[i]);
        assert(items[items.len() - 1] == items.last());
        if now.contains(id) {
            let k = choose|k: int| 0 <= k < now.len() && now[k] == id;
            if k < before.len() {
                assert(before[k] == id);
            }
        }
        if before.contains(id) {
            let k = choose|k: int| 0 <= k < before.len() && before[k] == id;
            assert(now[k] == id);
        }
        if member(items.last(), "video_id"@) == Some(JsonV::Text(id)) {
            assert(now[before.len() as int] == id);
        }
    }
}

/// The name of a file is what stands behind the last slash of its address, without what is asked of
/// it.
pub proof fn law_file_has_its_name(dir: Seq<char>, name: Seq<char>, asked: Seq<char>)
    requires
        forall|i: int| 0 <= i < dir.len() ==> #[trigger] dir[i] != '?',
        forall|i: int| 0 <= i < name.len() ==> #[trigger] name[i] != '?' && name[i] != '/',
    ensures
        basename_of(dir + seq!['/'] + name) == name,
        basename_of(dir + seq!['/'] + name + seq!['?'] + asked) == name,
{
    let path = dir + seq!['/'] + name;
    assert forall|i: int| 0 <= i < path.len() implies #[trigger] path[i] != '?' by {
        if i < dir.len() {
            assert(path[i] == dir[i]);
        } else if i > dir.len() {
            assert(path[i] == name[i - dir.len() - 1]);
        }
    }
    law_cut_once_at_the_first(path, asked, '?');
    law_pieces_are_joined_by_the_character(dir, name, '/');
    law_pieces_are_joined_by_the_character(name, name, '/');
    assert((split_on(dir, '/') + seq![name]).last() == name);
}

/// A batch gives a row for every ad that its reply holds, in the order in which they were asked
/// for, each with its product.
pub proof fn law_batch_gives_its_rows(
    ids: Seq<Seq<char>>,
    ads: Seq<(Seq<char>, Seq<char>)>,
    members: Seq<(Seq<char>, JsonV)>,
)
    ensures
        ({
            let found = ids.filter(|id: Seq<char>| find_key(members, id) is Some);
            let rows = batch_rows(ids, ads, members);
            &&& rows.len() == found.len()
            &&& forall|i: int|
                0 <= i < rows.len() ==> (#[trigger] rows[i]).ad_id == found[i] && rows[i]
                    == row_of_ad(
                    found[i],
                    match lookup(ads, found[i]) {
                        Some(p) => p,
                        None => Seq::empty(),
                    },
                    find_key(members, found[i])->0,
                )
        }),
    decreases ids.len(),
{
    reveal(Seq::filter);
    if ids.len() > 0 {
        law_batch_gives_its_rows(ids.drop_last(), ads, members);
    }
}

/// Whether ads are in the order of their ids, each once.
pub open spec fn in_order(ads: Seq<(Seq<char>, Seq<char>)>) -> bool {
    forall|i: int, j: int|
        0 <= i < j < ads.len() ==> text_lt((#[trigger] ads[i]).0, (#[trigger] ads[j]).0)
}

proof fn lemma_with_ad(ads: Seq<(Seq<char>, Seq<char>)>, id: Seq<char>, product: Seq<char>)
    requires
        in_order(ads),
    ensures
        in_order(with_ad(ads, id, product)),
        forall|x: (Seq<char>, Seq<char>)|
            #[trigger] with_ad(ads, id, product).contains(x) <==> ads.contains(x) || (x == (
                id,
                product,
            ) && forall|k: int| 0 <= k < ads.len() ==> (#[trigger] ads[k]).0 != id),
    decreases ads.len(),
{
    let r = with_ad(ads, id, product);
    let p = (id, product);
    if ads.len() == 0 {
        assert(r[0] == p);
        assert(r.contains(p));
    } else if ads.last().0 == id {
        assert(ads[ads.len() - 1].0 == id);
    } else if text_lt(ads.last().0, id) {
        let n = ads.len() as int;
        assert forall|k: int| 0 <= k < n implies (#[trigger] ads[k]).0 != id by {
            lemma_lt_irreflexive(id);
            if k < n - 1 {
                assert(text_lt(ads[k].0, ads[n - 1].0));
                lemma_lt_transitive(ads[k].0, ads.last().0, id);
            }
        }
        assert forall|i: int, j: int| 0 <= i < j < r.len() implies text_lt(
            (#[trigger] r[i]).0,
            (#[trigger] r[j]).0,
        ) by {
            assert(r[i] == ads[i]);
            if j == n {
                if i < n - 1 {
                    assert(text_lt(ads[i].0, ads[n - 1].0));
                    lemma_lt_transitive(ads[i].0, ads.last().0, id);
                }
            } else {
                assert(r[j] == ads[j]);
            }
        }
        assert forall|x: (Seq<char>, Seq<char>)|
            #[trigger] r.contains(x) <==> ads.contains(x) || (x == p && forall|k: int|
                0 <= k < ads.len() ==> (#[trigger] ads[k]).0 != id) by {
            if ads.contains(x) {
                let k = choose|k: int| 0 <= k < ads.len() && ads[k] == x;
                assert(r[k] == x);
            }
            assert(r[n] == p);
        }
    } else {
        let rest = ads.drop_last();
        let last = ads.last();
        let q = with_ad(rest, id, product);
        let n = ads.len() as int;
        assert(forall|i: int| 0 <= i < rest.len() ==> #[trigger] rest[i] == ads[i]);
        assert(forall|i: int| 0 <= i < rest.len() ==> rest[i] == #[trigger] ads[i]);
        lemma_with_ad(rest, id, product);
        lemma_lt_total(last.0, id);
        assert(ads[n - 1] == last);
        assert(r =~= q.push(last));
        assert forall|i: int, j: int| 0 <= i < j < r.len() implies text_lt(
            (#[trigger] r[i]).0,
            (#[trigger] r[j]).0,
        ) by {
            assert(r[i] == q[i]);
            if j < q.len() {
                assert(r[j] == q[j]);
            } else {
                assert(q.contains(q[i]));
                if rest.contains(q[i]) {
                    let k = choose|k: int| 0 <= k < rest.len() && rest[k] == q[i];
                    assert(ads[k] == q[i]);
                }
            }
        }
        assert forall|x: (Seq<char>, Seq<char>)|
            #[trigger] r.contains(x) <==> ads.contains(x) || (x == p && forall|k: int|
                0 <= k < ads.len() ==> (#[trigger] ads[k]).0 != id) by {
            if r.contains(x) {
                let k = choose|k: int| 0 <= k < r.len() && r[k] == x;
                if k < q.len() {
                    assert(q[k] == x);
                    assert(q.contains(x));
                    if rest.contains(x) {
                        let m = choose|m: int| 0 <= m < rest.len() && rest[m] == x;
                        assert(ads[m] == x);
                    } else {
                        assert forall|k: int| 0 <= k < ads.len() implies (#[trigger] ads[k]).0
                            != id by {
                            if k < rest.len() {
                                assert(rest[k].0 != id);
                            }
                        }
                    }
                }
            }
            if ads.contains(x) {
                let k = choose|k: int| 0 <= k < ads.len() && ads[k] == x;
                if k < rest.len() {
                    assert(rest[k] == x);
                    assert(rest.contains(x));
                    assert(q.contains(x));
                    let m = choose|m: int| 0 <= m < q.len() && q[m] == x;
                    assert(r[m] == x);
                } else {
                    assert(r[q.len() as int] == x);
                }
            }
            if x == p && forall|k: int| 0 <= k < ads.len() ==> (#[trigger] ads[k]).0 != id {
                assert forall|k: int| 0 <= k < rest.len() implies (#[trigger] rest[k]).0 != id by {
                    assert(ads[k].0 != id);
                }
                assert(q.contains(x));
                let m = choose|m: int| 0 <= m < q.len() && q[m] == x;
                assert(r[m] == x);
            }
        }
    }
}

/// The ads of rows are in the order of their ids, each once. An ad has the product of the first row
/// that names it.
pub proof fn law_ads_have_their_first_product(rows: Seq<JsonV>)
    ensures
        in_order(ads_of(rows)),
        forall|id: Seq<char>, product: Seq<char>|
            #[trigger] ads_of(rows).contains((id, product)) ==> exists|k: int|
                0 <= k < rows.len() && first_names(rows, k, id) && product == crate::json::text_or_empty(
                    member(#[trigger] rows[k], "_product"@),
                ),
    decreases rows.len(),
{
    if rows.len() > 0 {
        let rest = rows.drop_last();
        law_ads_have_their_first_product(rest);
        let before = ads_of(rest);
        let last = rows.last();
        assert(forall|k: int| 0 <= k < rest.len() ==> #[trigger] rest[k] == rows[k]);
        assert(forall|k: int| 0 <= k < rest.len() ==> rest[k] == #[trigger] rows[k]);
        assert(rows[rows.len() - 1] == last);
        match crate::json::text_in(member(last, "ad_id"@)) {
            Some(id) => {
                let product = crate::json::text_or_empty(member(last, "_product"@));
                lemma_with_ad(before, id, product);
                assert forall|x: Seq<char>, p: Seq<char>|
                    #[trigger] ads_of(rows).contains((x, p)) implies exists|k: int|
                    0 <= k < rows.len() && first_names(rows, k, x) && p
                        == crate::json::text_or_empty(member(#[trigger] rows[k], "_product"@)) by {
                    if before.contains((x, p)) {
                        let k = choose|k: int|
                            0 <= k < rest.len() && first_names(rest, k, x) && p
                                == crate::json::text_or_empty(
                                member(#[trigger] rest[k], "_product"@),
                            );
                        assert(rows[k] == rest[k]);
                        assert(first_names(rows, k, x));
                    } else {
                        lemma_ads_named(rest, x);
                        assert(first_names(rows, rows.len() - 1, x));
                    }
                }
            },
            None => {
                assert forall|x: Seq<char>, p: Seq<char>|
                    #[trigger] ads_of(rows).contains((x, p)) implies exists|k: int|
                    0 <= k < rows.len() && first_names(rows, k, x) && p
                        == crate::json::text_or_empty(member(#[trigger] rows[k], "_product"@)) by {
                    assert(before.contains((x, p)));
                    let k = choose|k: int|
                        0 <= k < rest.len() && first_names(rest, k, x) && p
                            == crate::json::text_or_empty(member(#[trigger] rest[k], "_product"@));
                    assert(rows[k] == rest[k]);
                    assert(first_names(rows, k, x));
                }
            },
        }
    }
}

/// Whether the row at `k` is the first one that names an ad.
pub open spec fn first_names(rows: Seq<JsonV>, k: int, id: Seq<char>) -> bool {
    &&& 0 <= k < rows.len()
    &&& member(rows[k], "ad_id"@) == Some(JsonV::Text(id))
    &&& forall|j: int| 0 <= j < k ==> member(#[trigger] rows[j], "ad_id"@) != Some(JsonV::Text(id))
}

proof fn lemma_ads_named(rows: Seq<JsonV>, id: Seq<char>)
    ensures
        in_order(ads_of(rows)),
        (exists|k: int|
            0 <= k < rows.len() && member(#[trigger] rows[k], "ad_id"@) == Some(JsonV::Text(id)))
            ==> exists|a: int| 0 <= a < ads_of(rows).len() && (#[trigger] ads_of(rows)[a]).0 == id,
    decreases rows.len(),
{
    if rows.len() > 0 {
        let rest = rows.drop_last();
        lemma_ads_named(rest, id);
        let before = ads_of(rest);
        let now = ads_of(rows);
        let last = rows.last();
        assert(forall|k: int| 0 <= k < rest.len() ==> #[trigger] rest[k] == rows[k]);
        let product = crate::json::text_or_empty(member(last, "_product"@));
        match crate::json::text_in(member(last, "ad_id"@)) {
            Some(x) => {
                lemma_with_ad(before, x, product);
            },
            None => {},
        }
        if exists|k: int|
            0 <= k < rows.len() && member(#[trigger] rows[k], "ad_id"@) == Some(JsonV::Text(id)) {
            let k = choose|k: int|
                0 <= k < rows.len() && member(#[trigger] rows[k], "ad_id"@) == Some(
                    JsonV::Text(id),
                );
            if k < rest.len() {
                assert(member(rest[k], "ad_id"@) == Some(JsonV::Text(id)));
            }
            if exists|a: int| 0 <= a < before.len() && (#[trigger] before[a]).0 == id {
                let a = choose|a: int| 0 <= a < before.len() && (#[trigger] before[a]).0 == id;
                assert(before.contains(before[a]));
                assert(now.contains(before[a]));
                let b = choose|b: int| 0 <= b < now.len() && now[b] == before[a];
                assert(now[b].0 == id);
            } else {
                assert(k == rows.len() - 1);
                assert(now.contains((id, product)));
                let b = choose|b: int| 0 <= b < now.len() && now[b] == (id, product);
                assert(now[b].0 == id);
            }
        }
    }
}

// Images

/// A file of an image has the extension of its type, whatever parameters the type has; one of a
/// type that is not known goes as `jpg`.
pub proof fn law_types_have_their_extension(kind: Seq<char>, parameters: Seq<char>)
    requires
        forall|i: int| 0 <= i < kind.len() ==> #[trigger] kind[i] != ';',
    ensures
        ext_of(kind + seq![';'] + parameters) == ext_of(kind),
        trimmed(kind) == "image/png"@ ==> ext_of(kind) == "png"@,
        trimmed(kind) == "image/webp"@ ==> ext_of(kind) == "webp"@,
        trimmed(kind) == "image/gif"@ ==> ext_of(kind) == "gif"@,
        trimmed(kind) != "image/png"@ && trimmed(kind) != "image/webp"@ && trimmed(kind)
            != "image/gif"@ ==> ext_of(kind) == "jpg"@,
{
    law_pieces_are_joined_by_the_character(kind, parameters, ';');
    crate::strs::lemma_split_on_len(parameters, ';');
    assert((seq![kind] + split_on(parameters, ';'))[0] == kind);
    reveal_strlit("image/png");
    reveal_strlit("image/webp");
    reveal_strlit("image/gif");
    assert("image/png"@.len() == 9 && "image/webp"@.len() == 10 && "image/gif"@.len() == 9);
    assert("image/png"@[6] == 'p' && "image/gif"@[6] == 'g');
}

/// A file lies in the directory of the start of its hash, under its hash and its extension.
pub proof fn law_files_lie_under_their_hash(sha256: Seq<char>, content_type: Seq<char>)
    ensures
        path_of(sha256, content_type) == fan_out(sha256) + "/"@ + sha256 + "."@ + ext_of(
            content_type,
        ),
{
}

/// What tells that an ad has the image it had is the hash that the platform gave, and the name of
/// the file where it gave none.
pub proof fn law_images_are_told_apart(a: CreativeRowV)
    ensures
        a.image_hash matches Some(h) ==> identity_of(a) == Some("img:"@ + h),
        a.image_hash is None ==> (a.image_basename matches Some(b) ==> identity_of(a) == Some(
            "url:"@ + b,
        )),
        a.image_hash is None && a.image_basename is None ==> identity_of(a) is None,
{
}

/// The images of a snapshot are those of its rows that have one and can be told apart, in their
/// order.
pub proof fn law_prior_images_are_those_of_the_rows(rows: Seq<CreativeRowV>)
    ensures
        ({
            let kept = rows.filter(|r: CreativeRowV| identity_of(r) is Some && r.asset is Some);
            let prior = prior_of(rows);
            &&& prior.len() == kept.len()
            &&& forall|i: int|
                0 <= i < prior.len() ==> Some((#[trigger] prior[i]).key) == identity_of(kept[i])
                    && Some(prior[i].asset) == kept[i].asset
        }),
    decreases rows.len(),
{
    reveal(Seq::filter);
    if rows.len() > 0 {
        law_prior_images_are_those_of_the_rows(rows.drop_last());
    }
}

/// Of the images those are used whose file is there, the first one for each key.
pub proof fn law_first_image_there_is_used(refs: Seq<PriorAssetV>, there: Seq<bool>, key: Seq<char>)
    requires
        there.len() == refs.len(),
    ensures
        has_key(usable(refs, there), key) <==> exists|i: int|
            0 <= i < refs.len() && #[trigger] there[i] && refs[i].key == key,
        forall|a: int, b: int|
            0 <= a < b < usable(refs, there).len() ==> (#[trigger] usable(refs, there)[a]).key != (
            #[trigger] usable(refs, there)[b]).key,
{
    lemma_usable(refs, there, key);
}

proof fn lemma_usable(refs: Seq<PriorAssetV>, there: Seq<bool>, key: Seq<char>)
    requires
        refs.len() <= there.len(),
    ensures
        has_key(usable(refs, there), key) <==> exists|i: int|
            0 <= i < refs.len() && #[trigger] there[i] && refs[i].key == key,
        forall|a: int, b: int|
            0 <= a < b < usable(refs, there).len() ==> (#[trigger] usable(refs, there)[a]).key != (
            #[trigger] usable(refs, there)[b]).key,
    decreases refs.len(),
{
    if refs.len() > 0 {
        let rest = refs.drop_last();
        let n = refs.len() - 1;
        let before = usable(rest, there);
        let now = usable(refs, there);
        lemma_usable(rest, there, key);
        assert(forall|i: int| 0 <= i < rest.len() ==> #[trigger] rest[i] == refs[i]);
        if has_key(now, key) {
            let k = choose|k: int| 0 <= k < now.len() && (#[trigger] now[k]).key == key;
            if k < before.len() {
                assert(before[k].key == key);
                let i = choose|i: int|
                    0 <= i < rest.len() && #[trigger] there[i] && rest[i].key == key;
                assert(refs[i].key == key);
            } else {
                assert(there[n] && refs[n].key == key);
            }
        }
        if exists|i: int| 0 <= i < refs.len() && #[trigger] there[i] && refs[i].key == key {
            let i = choose|i: int|
                0 <= i < refs.len() && #[trigger] there[i] && refs[i].key == key;
            if i < n {
                assert(there[i] && rest[i].key == key);
                assert(has_key(before, key));
            }
            if has_key(before, key) {
                let k = choose|k: int| 0 <= k < before.len() && (#[trigger] before[k]).key == key;
                assert(now[k].key == key);
            } else {
                assert(now[before.len() as int].key == key);
            }
        }
        assert forall|a: int, b: int| 0 <= a < b < now.len() implies (#[trigger] now[a]).key != (
        #[trigger] now[b]).key by {
            assert(now[a] == before[a]);
            if b < before.len() {
                assert(now[b] == before[b]);
            } else if now[a].key == now[b].key {
                assert(has_key(before, refs.last().key));
            }
        }
    }
}

// Ad sets

/// The texts under a key are those of the rows that have one, in their order; empty ones count only
/// where that is asked for.
pub proof fn law_texts_are_those_of_the_rows(rows: Seq<JsonV>, key: Seq<char>, empty: bool)
    ensures
        texts_under(rows, key, empty) == rows.filter(
            |r: JsonV| text_of(member(r, key)) matches Some(s) && (empty || s.len() > 0),
        ).map_values(|r: JsonV| text_of(member(r, key))->0),
    decreases rows.len(),
{
    reveal(Seq::filter);
    let counts = |r: JsonV| text_of(member(r, key)) matches Some(s) && (empty || s.len() > 0);
    let text = |r: JsonV| text_of(member(r, key))->0;
    if rows.len() > 0 {
        law_texts_are_those_of_the_rows(rows.drop_last(), key, empty);
        let before = rows.drop_last().filter(counts);
        if counts(rows.last()) {
            assert(before.push(rows.last()).map_values(text) =~= before.map_values(text).push(
                text(rows.last()),
            ));
        }
    } else {
        assert(rows.filter(counts).map_values(text) =~= Seq::empty());
    }
}

/// A reply that is put into what was there before replaces what stands under its names, and leaves
/// the rest.
pub proof fn law_reply_replaces_its_members(
    had: JsonV,
    add: Seq<(Seq<char>, JsonV)>,
    name: Seq<char>,
)
    requires
        had is Object,
    ensures
        merged(had, add) is Object,
        (forall|i: int| 0 <= i < add.len() ==> (#[trigger] add[i]).0 != name) ==> member(
            merged(had, add),
            name,
        ) == member(had, name),
        forall|k: int|
            0 <= k < add.len() && (#[trigger] add[k]).0 == name && (forall|i: int|
                k < i < add.len() ==> (#[trigger] add[i]).0 != name) ==> member(
                merged(had, add),
                name,
            ) == Some(add[k].1),
    decreases add.len(),
{
    if add.len() > 0 {
        let rest = add.drop_last();
        law_reply_replaces_its_members(had, rest, name);
        assert(forall|i: int| 0 <= i < rest.len() ==> #[trigger] rest[i] == add[i]);
        assert(add[add.len() - 1] == add.last());
        match merged(had, rest) {
            JsonV::Object(pairs) => {
                crate::fetch::law_put_member_is_found(pairs, add.last().0, add.last().1, name);
            },
            _ => {},
        }
        assert forall|k: int|
            0 <= k < add.len() && (#[trigger] add[k]).0 == name && (forall|i: int|
                k < i < add.len() ==> (#[trigger] add[i]).0 != name) implies member(
            merged(had, add),
            name,
        ) == Some(add[k].1) by {
            if k < rest.len() {
                assert(rest[k].0 == name);
                assert forall|i: int| k < i < rest.len() implies (#[trigger] rest[i]).0 != name by {
                    assert(add[i].0 != name);
                }
            }
        }
    }
}

} // verus!
