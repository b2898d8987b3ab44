//! The card of a creative: what its group of ads is, delivered and brought.

use crate::fetch::assets::{path_of, rel_path};
use crate::fetch::{show_day, shown_day};
use crate::json::{member, pointer, text_in, Json, JsonV};
use crate::report::ads::{
    came_of, count_came, facts_view, find_fact, fits, is_delivered, list_of_ads, list_rows,
    rows_of, sum_of, sum_up, tickets_view, total_of, Ad, AdV, Came, Fact, FactV, Part, PartV, Sum,
    Ticket, TicketV,
};
use crate::report::segmentation::{
    count_kind, count_leads, kinds_view, split, LeadKind, Sorted,
};
use crate::schema::{
    CardStatus, CreativeCard, Delivery, FunnelStage, GroupKind, ImageRef, Segmentation, StatusCode,
    TargetingBreakdown, TrendBucket,
};
use crate::sets::{find_text, lemma_place_of, sort_set, sorted_set};
use crate::snapshot::{ads_view, AdsDailyRow, AdsDailyRowV};
use crate::strs::{cat2, chars_of, less, opt_view, push_text, same, slice_text, text_lt, views};
use crate::window::places;
use vstd::prelude::*;

pub mod laws;

verus! {

// Groups

/// The ads of a group, in their order.
pub open spec fn members(ads: Seq<AdV>, product: Seq<char>, key: Seq<char>) -> Seq<AdV>
    decreases ads.len(),
{
    if ads.len() == 0 {
        Seq::empty()
    } else {
        let before = members(ads.drop_last(), product, key);
        let a = ads.last();
        if a.product == product && a.key == key {
            before.push(a)
        } else {
            before
        }
    }
}

pub open spec fn ad_refs(v: Seq<&Ad>) -> Seq<AdV> {
    v.map_values(|a: &Ad| a@)
}

pub(crate) fn list_members<'b, 'a>(ads: &'b Vec<Ad<'a>>, product: &str, key: &str) -> (r: Vec<
    &'b Ad<'a>,
>)
    ensures
        ad_refs(r@) == members(list_of_ads(ads@), product@, key@),
{
    let ghost all = list_of_ads(ads@);
    let mut out: Vec<&'b Ad<'a>> = Vec::new();
    let mut i: usize = 0;
    assert(ad_refs(out@) =~= Seq::empty());
    assert(all.take(0) =~= Seq::empty());
    while i < ads.len()
        invariant
            i <= ads@.len(),
            all == list_of_ads(ads@),
            ad_refs(out@) == members(all.take(i as int), product@, key@),
        decreases ads.len() - i,
    {
        let a = &ads[i];
        assert(all.take(i + 1).drop_last() =~= all.take(i as int));
        assert(all[i as int] == a@);
        if same(a.product.as_str(), product) && same(a.key.as_str(), key) {
            assert(ad_refs(out@.push(a)) =~= ad_refs(out@).push(a@));
            out.push(a);
        }
        i += 1;
    }
    assert(all.take(i as int) =~= all);
    out
}

// Names

pub open spec fn or_dash(s: Seq<char>) -> Seq<char> {
    if s.len() == 0 {
        "-"@
    } else {
        s
    }
}

pub fn non_empty(s: &str) -> (r: String)
    ensures
        r@ == or_dash(s@),
{
    if chars_of(s).len() == 0 {
        "-".to_owned()
    } else {
        s.to_owned()
    }
}

pub open spec fn names_of(g: Seq<AdV>) -> Seq<Seq<char>> {
    g.map_values(|a: AdV| or_dash(a.name))
}

/// How often a text is in a list.
pub open spec fn times_in(v: Seq<Seq<char>>, t: Seq<char>) -> nat
    decreases v.len(),
{
    if v.len() == 0 {
        0
    } else {
        times_in(v.drop_last(), t) + if v.last() == t {
            1nat
        } else {
            0
        }
    }
}

/// Of texts in their order the one that is most often in a list, the last one of several.
pub open spec fn most_of(each: Seq<Seq<char>>, v: Seq<Seq<char>>) -> Option<Seq<char>>
    decreases each.len(),
{
    if each.len() == 0 {
        None
    } else {
        let t = each.last();
        match most_of(each.drop_last(), v) {
            Some(b) => if times_in(v, b) > times_in(v, t) {
                Some(b)
            } else {
                Some(t)
            },
            None => Some(t),
        }
    }
}

/// The name of a group: that of most of its ads.
pub open spec fn display_name_of(g: Seq<AdV>) -> Seq<char> {
    match most_of(sorted_set(names_of(g)), names_of(g)) {
        Some(n) => n,
        None => "-"@,
    }
}

fn count_times(v: &Vec<String>, t: &str) -> (r: usize)
    ensures
        r == times_in(views(v@), t@),
{
    let ghost all = views(v@);
    let mut n: usize = 0;
    let mut i: usize = 0;
    assert(all.take(0) =~= Seq::empty());
    while i < v.len()
        invariant
            n <= i <= v@.len(),
            all == views(v@),
            n == times_in(all.take(i as int), t@),
        decreases v.len() - i,
    {
        assert(all.take(i + 1).drop_last() =~= all.take(i as int));
        assert(all[i as int] == v@[i as int]@);
        if same(v[i].as_str(), t) {
            n += 1;
        }
        i += 1;
    }
    assert(all.take(i as int) =~= all);
    n
}

fn find_name(g: &Vec<&Ad>) -> (r: String)
    ensures
        r@ == display_name_of(ad_refs(g@)),
{
    let ghost want = names_of(ad_refs(g@));
    let mut names: Vec<String> = Vec::new();
    let mut i: usize = 0;
    assert(views(names@) =~= want.take(0));
    while i < g.len()
        invariant
            i <= g@.len(),
            want == names_of(ad_refs(g@)),
            views(names@) == want.take(i as int),
        decreases g.len() - i,
    {
        assert(ad_refs(g@)[i as int] == g@[i as int]@);
        assert(want.take(i + 1) =~= want.take(i as int).push(want[i as int]));
        push_text(&mut names, non_empty(g[i].name.as_str()));
        i += 1;
    }
    assert(want.take(i as int) =~= want);
    let each = sort_set(&names);
    let ghost set_of = views(each@);
    let mut best: Option<String> = None;
    let mut k: usize = 0;
    assert(set_of.take(0) =~= Seq::empty());
    while k < each.len()
        invariant
            k <= each@.len(),
            set_of == views(each@),
            want == views(names@),
            opt_view(best) == most_of(set_of.take(k as int), want),
        decreases each.len() - k,
    {
        assert(set_of.take(k + 1).drop_last() =~= set_of.take(k as int));
        assert(set_of[k as int] == each@[k as int]@);
        let keep = match &best {
            Some(b) => count_times(&names, b.as_str()) > count_times(&names, each[k].as_str()),
            None => false,
        };
        if !keep {
            best = Some(each[k].clone());
        }
        k += 1;
    }
    assert(set_of.take(k as int) =~= set_of);
    match best {
        Some(b) => b,
        None => "-".to_owned(),
    }
}

/// The campaigns of a group, each once, as they come.
pub open spec fn campaigns_of(g: Seq<AdV>) -> Seq<Seq<char>>
    decreases g.len(),
{
    if g.len() == 0 {
        Seq::empty()
    } else {
        let before = campaigns_of(g.drop_last());
        let c = g.last().campaign;
        if c.len() > 0 && !before.contains(c) {
            before.push(c)
        } else {
            before
        }
    }
}

fn list_campaigns(g: &Vec<&Ad>) -> (r: Vec<String>)
    ensures
        views(r@) == campaigns_of(ad_refs(g@)),
{
    let ghost all = ad_refs(g@);
    let mut out: Vec<String> = Vec::new();
    let mut i: usize = 0;
    assert(views(out@) =~= Seq::empty());
    assert(all.take(0) =~= Seq::empty());
    while i < g.len()
        invariant
            i <= g@.len(),
            all == ad_refs(g@),
            views(out@) == campaigns_of(all.take(i as int)),
        decreases g.len() - i,
    {
        assert(all.take(i + 1).drop_last() =~= all.take(i as int));
        assert(all[i as int] == g@[i as int]@);
        let c = g[i].campaign.as_str();
        proof {
            lemma_place_of(views(out@), c@);
        }
        if chars_of(c).len() > 0 && find_text(&out, c) >= out.len() {
            push_text(&mut out, c.to_owned());
        }
        i += 1;
    }
    assert(all.take(i as int) =~= all);
    out
}

pub open spec fn member_ids(g: Seq<AdV>) -> Seq<Seq<char>> {
    g.map_values(|a: AdV| a.id)
}

pub open spec fn member_targetings(g: Seq<AdV>) -> Seq<Seq<char>> {
    g.map_values(|a: AdV| a.targeting)
}

fn list_ids(g: &Vec<&Ad>) -> (r: Vec<String>)
    ensures
        views(r@) == member_ids(ad_refs(g@)),
{
    let ghost want = member_ids(ad_refs(g@));
    let mut out: Vec<String> = Vec::new();
    let mut i: usize = 0;
    assert(views(out@) =~= want.take(0));
    while i < g.len()
        invariant
            i <= g@.len(),
            want == member_ids(ad_refs(g@)),
            views(out@) == want.take(i as int),
        decreases g.len() - i,
    {
        assert(ad_refs(g@)[i as int] == g@[i as int]@);
        assert(want.take(i + 1) =~= want.take(i as int).push(want[i as int]));
        push_text(&mut out, g[i].id.clone());
        i += 1;
    }
    assert(want.take(i as int) =~= want);
    out
}

fn list_targetings(g: &Vec<&Ad>) -> (r: Vec<String>)
    ensures
        views(r@) == sorted_set(member_targetings(ad_refs(g@))),
{
    let ghost want = member_targetings(ad_refs(g@));
    let mut out: Vec<String> = Vec::new();
    let mut i: usize = 0;
    assert(views(out@) =~= want.take(0));
    while i < g.len()
        invariant
            i <= g@.len(),
            want == member_targetings(ad_refs(g@)),
            views(out@) == want.take(i as int),
        decreases g.len() - i,
    {
        assert(ad_refs(g@)[i as int] == g@[i as int]@);
        assert(want.take(i + 1) =~= want.take(i as int).push(want[i as int]));
        push_text(&mut out, g[i].targeting.clone());
        i += 1;
    }
    assert(want.take(i as int) =~= want);
    sort_set(&out)
}

// Facts of the creatives

pub open spec fn has_video(g: Seq<AdV>) -> bool {
    exists|i: int|
        0 <= i < g.len() && ((#[trigger] g[i]).creative matches Some(c) && c.is_video)
}

pub open spec fn is_status(a: AdV, status: Seq<char>) -> bool {
    a.creative matches Some(c) && c.status == Some(status)
}

/// Whether one of the ads has a status.
pub open spec fn has_status(g: Seq<AdV>, status: Seq<char>) -> bool {
    exists|i: int| 0 <= i < g.len() && is_status(#[trigger] g[i], status)
}

/// Where learning stands in an ad set.
pub open spec fn stage_of(adsets: JsonV, id: Seq<char>) -> Option<Seq<char>> {
    match member(adsets, id) {
        Some(a) => text_in(pointer(a, "/learning_stage_info/status"@)),
        None => None,
    }
}

/// Whether the ad set of a live ad is at a stage of learning.
pub open spec fn is_at_stage(a: AdV, adsets: JsonV, stage: Seq<char>) -> bool {
    is_status(a, "ACTIVE"@) && a.creative->0.adset_id.len() > 0 && stage_of(
        adsets,
        a.creative->0.adset_id,
    ) == Some(stage)
}

pub open spec fn has_stage(g: Seq<AdV>, adsets: JsonV, stage: Seq<char>) -> bool {
    exists|i: int| 0 <= i < g.len() && is_at_stage(#[trigger] g[i], adsets, stage)
}

fn find_video(g: &Vec<&Ad>) -> (r: bool)
    ensures
        r == has_video(ad_refs(g@)),
{
    let ghost all = ad_refs(g@);
    let mut i: usize = 0;
    while i < g.len()
        invariant
            i <= g@.len(),
            all == ad_refs(g@),
            forall|k: int|
                0 <= k < i ==> !((#[trigger] all[k]).creative matches Some(c) && c.is_video),
        decreases g.len() - i,
    {
        assert(all[i as int] == g@[i as int]@);
        let yes = match g[i].creative {
            Some(c) => c.is_video,
            None => false,
        };
        if yes {
            assert(all[i as int].creative matches Some(c) && c.is_video);
            return true;
        }
        i += 1;
    }
    false
}

fn at_status(a: &Ad, status: &str) -> (r: bool)
    ensures
        r == is_status(a@, status@),
{
    match a.creative {
        Some(c) => match &c.status {
            Some(s) => same(s.as_str(), status),
            None => false,
        },
        None => false,
    }
}

fn find_status(g: &Vec<&Ad>, status: &str) -> (r: bool)
    ensures
        r == has_status(ad_refs(g@), status@),
{
    let ghost all = ad_refs(g@);
    let mut i: usize = 0;
    while i < g.len()
        invariant
            i <= g@.len(),
            all == ad_refs(g@),
            forall|k: int| 0 <= k < i ==> !is_status(#[trigger] all[k], status@),
        decreases g.len() - i,
    {
        assert(all[i as int] == g@[i as int]@);
        if at_status(g[i], status) {
            assert(is_status(all[i as int], status@));
            return true;
        }
        i += 1;
    }
    false
}

fn find_stage(g: &Vec<&Ad>, adsets: &Json, stage: &str) -> (r: bool)
    ensures
        r == has_stage(ad_refs(g@), adsets@, stage@),
{
    let ghost all = ad_refs(g@);
    let mut i: usize = 0;
    while i < g.len()
        invariant
            i <= g@.len(),
            all == ad_refs(g@),
            forall|k: int| 0 <= k < i ==> !is_at_stage(#[trigger] all[k], adsets@, stage@),
        decreases g.len() - i,
    {
        assert(all[i as int] == g@[i as int]@);
        if at_status(g[i], "ACTIVE") {
            let yes = match g[i].creative {
                Some(c) => chars_of(c.adset_id.as_str()).len() > 0 && match adsets.get(
                    c.adset_id.as_str(),
                ) {
                    Some(a) => match crate::json::opt_str(a.pointer("/learning_stage_info/status")) {
                        Some(s) => same(s, stage),
                        None => false,
                    },
                    None => false,
                },
                None => false,
            };
            if yes {
                assert(is_at_stage(all[i as int], adsets@, stage@));
                return true;
            }
        }
        i += 1;
    }
    false
}

pub struct CardStatusV {
    pub code: StatusCode,
    pub label: Seq<char>,
}

impl View for CardStatus {
    type V = CardStatusV;

    open spec fn view(&self) -> CardStatusV {
        CardStatusV { code: self.code, label: self.label@ }
    }
}

/// The status of a group: live where one of its ads is, and learning where an ad set of those is.
pub open spec fn status_of(g: Seq<AdV>, adsets: JsonV) -> CardStatusV {
    if has_status(g, "ACTIVE"@) {
        if has_stage(g, adsets, "LEARNING"@) {
            CardStatusV { code: StatusCode::Learn, label: "Live - learning"@ }
        } else if has_stage(g, adsets, "FAIL"@) {
            CardStatusV { code: StatusCode::Learn, label: "Live - learning limited"@ }
        } else {
            CardStatusV { code: StatusCode::Live, label: "Live"@ }
        }
    } else if has_status(g, "PENDING_REVIEW"@) {
        CardStatusV { code: StatusCode::Learn, label: "In review"@ }
    } else if has_status(g, "DISAPPROVED"@) {
        CardStatusV { code: StatusCode::Stop, label: "Rejected"@ }
    } else {
        CardStatusV { code: StatusCode::Stop, label: "Stopped"@ }
    }
}

pub(crate) fn status(g: &Vec<&Ad>, adsets: &Json) -> (r: CardStatus)
    ensures
        r@ == status_of(ad_refs(g@), adsets@),
{
    if find_status(g, "ACTIVE") {
        if find_stage(g, adsets, "LEARNING") {
            CardStatus { code: StatusCode::Learn, label: "Live - learning".to_owned() }
        } else if find_stage(g, adsets, "FAIL") {
            CardStatus { code: StatusCode::Learn, label: "Live - learning limited".to_owned() }
        } else {
            CardStatus { code: StatusCode::Live, label: "Live".to_owned() }
        }
    } else if find_status(g, "PENDING_REVIEW") {
        CardStatus { code: StatusCode::Learn, label: "In review".to_owned() }
    } else if find_status(g, "DISAPPROVED") {
        CardStatus { code: StatusCode::Stop, label: "Rejected".to_owned() }
    } else {
        CardStatus { code: StatusCode::Stop, label: "Stopped".to_owned() }
    }
}

/// The first ten characters of a text.
pub open spec fn ten_of(s: Seq<char>) -> Seq<char> {
    if s.len() <= 10 {
        s
    } else {
        s.take(10)
    }
}

pub fn truncate10(s: &str) -> (r: String)
    ensures
        r@ == ten_of(s@),
{
    let v = chars_of(s);
    let n: usize = if v.len() <= 10 {
        v.len()
    } else {
        10
    };
    let r = slice_text(&v, 0, n);
    assert(r@ =~= ten_of(v@));
    r
}

pub open spec fn created_day(a: AdV) -> Option<Seq<char>> {
    match a.creative {
        Some(c) => match c.created_time {
            Some(t) => Some(ten_of(t)),
            None => None,
        },
        None => None,
    }
}

/// The earliest day on which an ad of a group was created.
pub open spec fn created_of(g: Seq<AdV>) -> Option<Seq<char>>
    decreases g.len(),
{
    if g.len() == 0 {
        None
    } else {
        let before = created_of(g.drop_last());
        match (before, created_day(g.last())) {
            (Some(p), Some(d)) => if text_lt(d, p) {
                Some(d)
            } else {
                Some(p)
            },
            (None, Some(d)) => Some(d),
            (_, None) => before,
        }
    }
}

fn find_created(g: &Vec<&Ad>) -> (r: Option<String>)
    ensures
        opt_view(r) == created_of(ad_refs(g@)),
{
    let ghost all = ad_refs(g@);
    let mut out: Option<String> = None;
    let mut i: usize = 0;
    assert(all.take(0) =~= Seq::empty());
    while i < g.len()
        invariant
            i <= g@.len(),
            all == ad_refs(g@),
            opt_view(out) == created_of(all.take(i as int)),
        decreases g.len() - i,
    {
        assert(all.take(i + 1).drop_last() =~= all.take(i as int));
        assert(all[i as int] == g@[i as int]@);
        if let Some(c) = g[i].creative {
            if let Some(t) = &c.created_time {
                let d = truncate10(t.as_str());
                let newer = match &out {
                    Some(p) => less(d.as_str(), p.as_str()),
                    None => true,
                };
                if newer {
                    out = Some(d);
                }
            }
        }
        i += 1;
    }
    assert(all.take(i as int) =~= all);
    out
}

/// The first link of an ad of a group.
pub open spec fn permalink_of(g: Seq<AdV>) -> Option<Seq<char>>
    decreases g.len(),
{
    if g.len() == 0 {
        None
    } else {
        match permalink_of(g.drop_last()) {
            Some(p) => Some(p),
            None => match g.last().creative {
                Some(c) => match c.permalink {
                    Some(p) => if p.len() > 0 {
                        Some(p)
                    } else {
                        None
                    },
                    None => None,
                },
                None => None,
            },
        }
    }
}

fn find_permalink(g: &Vec<&Ad>) -> (r: Option<String>)
    ensures
        opt_view(r) == permalink_of(ad_refs(g@)),
{
    let ghost all = ad_refs(g@);
    let mut out: Option<String> = None;
    let mut i: usize = 0;
    assert(all.take(0) =~= Seq::empty());
    while i < g.len()
        invariant
            i <= g@.len(),
            all == ad_refs(g@),
            opt_view(out) == permalink_of(all.take(i as int)),
        decreases g.len() - i,
    {
        assert(all.take(i + 1).drop_last() =~= all.take(i as int));
        assert(all[i as int] == g@[i as int]@);
        if out.is_none() {
            if let Some(c) = g[i].creative {
                if let Some(p) = &c.permalink {
                    if chars_of(p.as_str()).len() > 0 {
                        out = Some(p.clone());
                    }
                }
            }
        }
        i += 1;
    }
    assert(all.take(i as int) =~= all);
    out
}

#[verifier::ext_equal]
pub struct ImageRefV {
    pub sha256: Seq<char>,
    pub path: Seq<char>,
}

pub open spec fn opt_image(o: Option<ImageRef>) -> Option<ImageRefV> {
    match o {
        Some(i) => Some(ImageRefV { sha256: i.sha256@, path: i.path@ }),
        None => None,
    }
}

/// The first image of an ad of a group.
pub open spec fn image_of(g: Seq<AdV>) -> Option<ImageRefV>
    decreases g.len(),
{
    if g.len() == 0 {
        None
    } else {
        match image_of(g.drop_last()) {
            Some(i) => Some(i),
            None => match g.last().creative {
                Some(c) => match c.asset {
                    Some(a) => Some(
                        ImageRefV {
                            sha256: a.sha256,
                            path: "assets/creatives/"@ + path_of(a.sha256, a.content_type),
                        },
                    ),
                    None => None,
                },
                None => None,
            },
        }
    }
}

fn find_image(g: &Vec<&Ad>) -> (r: Option<ImageRef>)
    ensures
        opt_image(r) == image_of(ad_refs(g@)),
{
    let ghost all = ad_refs(g@);
    let mut out: Option<ImageRef> = None;
    let mut i: usize = 0;
    assert(all.take(0) =~= Seq::empty());
    while i < g.len()
        invariant
            i <= g@.len(),
            all == ad_refs(g@),
            opt_image(out) == image_of(all.take(i as int)),
        decreases g.len() - i,
    {
        assert(all.take(i + 1).drop_last() =~= all.take(i as int));
        assert(all[i as int] == g@[i as int]@);
        if out.is_none() {
            if let Some(c) = g[i].creative {
                if let Some(a) = &c.asset {
                    out = Some(
                        ImageRef {
                            sha256: a.sha256.clone(),
                            path: cat2(
                                "assets/creatives/",
                                rel_path(a.sha256.as_str(), a.content_type.as_str()).as_str(),
                            ),
                        },
                    );
                }
            }
        }
        i += 1;
    }
    assert(all.take(i as int) =~= all);
    out
}

// What a report is made of

/// What the cards of a report are made of.
pub struct Book<'a> {
    pub rows: &'a Vec<AdsDailyRow>,
    /// The rows of the days.
    pub picked: Vec<usize>,
    pub ads: Vec<Ad<'a>>,
    pub facts: Vec<Fact>,
    pub tickets: Vec<Ticket>,
    pub adsets: &'a Json,
    /// The first day, and how many there are.
    pub first: i64,
    pub days: u32,
    pub leads: Vec<Sorted>,
}

#[verifier::ext_equal]
pub struct BookV {
    pub rows: Seq<AdsDailyRowV>,
    pub picked: Seq<int>,
    pub ads: Seq<AdV>,
    pub facts: Seq<FactV>,
    pub tickets: Seq<TicketV>,
    pub adsets: JsonV,
    pub first: int,
    pub days: nat,
    pub leads: Seq<(Seq<char>, LeadKind)>,
}

impl<'a> View for Book<'a> {
    type V = BookV;

    open spec fn view(&self) -> BookV {
        BookV {
            rows: ads_view(self.rows@),
            picked: places(self.picked@),
            ads: list_of_ads(self.ads@),
            facts: facts_view(self.facts@),
            tickets: tickets_view(self.tickets@),
            adsets: self.adsets@,
            first: self.first as int,
            days: self.days as nat,
            leads: kinds_view(self.leads@),
        }
    }
}

impl<'a> Book<'a> {
    /// The rows are there, and the sums can be told.
    pub open spec fn wf(&self) -> bool {
        &&& forall|k: int|
            0 <= k < self.picked@.len() ==> (#[trigger] self.picked@[k]) < self.rows@.len()
        &&& fits(total_of(facts_view(self.facts@)))
        &&& i64::MIN / 2 <= self.first <= i64::MAX / 2
    }
}

pub open spec fn group_part(product: Seq<char>, key: Seq<char>) -> PartV {
    PartV { product, key, targeting: None, date: None }
}

pub open spec fn targeting_part(product: Seq<char>, key: Seq<char>, t: Seq<char>) -> PartV {
    PartV { product, key, targeting: Some(t), date: None }
}

pub open spec fn day_part(product: Seq<char>, key: Seq<char>, d: Seq<char>) -> PartV {
    PartV { product, key, targeting: None, date: Some(d) }
}

// Delivery

#[verifier::ext_equal]
pub struct DeliveryV {
    pub spend: Seq<Seq<int>>,
    pub sum: Sum,
}

pub open spec fn lists_of(v: Seq<Vec<usize>>) -> Seq<Seq<int>> {
    v.map_values(|x: Vec<usize>| places(x@))
}

impl View for Delivery {
    type V = DeliveryV;

    open spec fn view(&self) -> DeliveryV {
        DeliveryV {
            spend: lists_of(self.spend@),
            sum: Sum {
                impressions: self.impressions as nat,
                reach: self.reach as nat,
                clicks: self.clicks as nat,
                m_leads: self.m_leads as nat,
            },
        }
    }
}

/// The rows of the ads of a group, ad by ad.
pub open spec fn spend_of(g: Seq<AdV>, rows: Seq<AdsDailyRowV>, picked: Seq<int>) -> Seq<Seq<int>> {
    g.map_values(|a: AdV| rows_of(rows, picked, a.id))
}

fn list_spend(g: &Vec<&Ad>, b: &Book) -> (r: Vec<Vec<usize>>)
    requires
        b.wf(),
    ensures
        lists_of(r@) == spend_of(ad_refs(g@), b@.rows, b@.picked),
{
    let ghost want = spend_of(ad_refs(g@), b@.rows, b@.picked);
    let mut out: Vec<Vec<usize>> = Vec::new();
    let mut i: usize = 0;
    assert(lists_of(out@) =~= want.take(0));
    while i < g.len()
        invariant
            i <= g@.len(),
            b.wf(),
            want == spend_of(ad_refs(g@), b@.rows, b@.picked),
            lists_of(out@) == want.take(i as int),
        decreases g.len() - i,
    {
        assert(ad_refs(g@)[i as int] == g@[i as int]@);
        let x = list_rows(b.rows, &b.picked, g[i].id.as_str());
        assert(lists_of(out@.push(x)) =~= lists_of(out@).push(places(x@)));
        assert(want.take(i + 1) =~= want.take(i as int).push(want[i as int]));
        out.push(x);
        i += 1;
    }
    assert(want.take(i as int) =~= want);
    out
}

/// The ads of a group with a targeting.
pub open spec fn aimed_at(g: Seq<AdV>, t: Seq<char>) -> Seq<AdV>
    decreases g.len(),
{
    if g.len() == 0 {
        Seq::empty()
    } else {
        let before = aimed_at(g.drop_last(), t);
        if g.last().targeting == t {
            before.push(g.last())
        } else {
            before
        }
    }
}

fn list_aimed<'b, 'a>(g: &Vec<&'b Ad<'a>>, t: &str) -> (r: Vec<&'b Ad<'a>>)
    ensures
        ad_refs(r@) == aimed_at(ad_refs(g@), t@),
{
    let ghost all = ad_refs(g@);
    let mut out: Vec<&'b Ad<'a>> = Vec::new();
    let mut i: usize = 0;
    assert(ad_refs(out@) =~= Seq::empty());
    assert(all.take(0) =~= Seq::empty());
    while i < g.len()
        invariant
            i <= g@.len(),
            all == ad_refs(g@),
            ad_refs(out@) == aimed_at(all.take(i as int), t@),
        decreases g.len() - i,
    {
        let a = g[i];
        assert(all.take(i + 1).drop_last() =~= all.take(i as int));
        assert(all[i as int] == a@);
        if same(a.targeting.as_str(), t) {
            assert(ad_refs(out@.push(a)) =~= ad_refs(out@).push(a@));
            out.push(a);
        }
        i += 1;
    }
    assert(all.take(i as int) =~= all);
    out
}

#[verifier::ext_equal]
pub struct BreakdownV {
    pub targeting: Seq<char>,
    pub delivery: DeliveryV,
    pub came: Came,
}

impl View for TargetingBreakdown {
    type V = BreakdownV;

    open spec fn view(&self) -> BreakdownV {
        BreakdownV { targeting: self.targeting@, delivery: self.delivery@, came: self.crm@ }
    }
}

pub open spec fn breakdowns_view(v: Seq<TargetingBreakdown>) -> Seq<BreakdownV> {
    v.map_values(|t: TargetingBreakdown| t@)
}

/// What one targeting of a group brought. Its reach is not told: people are reached by several.
pub open spec fn breakdown_of(
    b: BookV,
    g: Seq<AdV>,
    product: Seq<char>,
    key: Seq<char>,
    t: Seq<char>,
) -> BreakdownV {
    let p = targeting_part(product, key, t);
    let s = sum_of(b.facts, b.ads, p);
    BreakdownV {
        targeting: t,
        delivery: DeliveryV {
            spend: spend_of(aimed_at(g, t), b.rows, b.picked),
            sum: Sum {
                impressions: s.impressions,
                reach: 0,
                clicks: s.clicks,
                m_leads: s.m_leads,
            },
        },
        came: came_of(b.tickets, b.ads, p),
    }
}

pub open spec fn breakdowns_of(
    b: BookV,
    g: Seq<AdV>,
    product: Seq<char>,
    key: Seq<char>,
) -> Seq<BreakdownV> {
    sorted_set(member_targetings(g)).map_values(
        |t: Seq<char>| breakdown_of(b, g, product, key, t),
    )
}

fn list_breakdowns(b: &Book, g: &Vec<&Ad>, product: &str, key: &str) -> (r: Vec<
    TargetingBreakdown,
>)
    requires
        b.wf(),
    ensures
        breakdowns_view(r@) == breakdowns_of(b@, ad_refs(g@), product@, key@),
{
    let each = list_targetings(g);
    let ghost group = ad_refs(g@);
    let ghost set_of = sorted_set(member_targetings(group));
    let ghost want = breakdowns_of(b@, group, product@, key@);
    let mut out: Vec<TargetingBreakdown> = Vec::new();
    let mut i: usize = 0;
    assert(breakdowns_view(out@) =~= want.take(0));
    assert(views(each@).len() == each@.len());
    while i < each.len()
        invariant
            i <= each@.len(),
            b.wf(),
            group == ad_refs(g@),
            set_of == sorted_set(member_targetings(group)),
            views(each@) == set_of,
            each@.len() == set_of.len(),
            want == breakdowns_of(b@, group, product@, key@),
            breakdowns_view(out@) == want.take(i as int),
        decreases each.len() - i,
    {
        let t = each[i].as_str();
        assert(views(each@)[i as int] == t@);
        let p = Part { product, key, targeting: Some(t), date: None };
        assert(p@ =~= targeting_part(product@, key@, t@));
        let s = sum_up(&b.facts, &b.ads, &p);
        let x = TargetingBreakdown {
            targeting: t.to_owned(),
            delivery: Delivery {
                spend: list_spend(&list_aimed(g, t), b),
                impressions: s.impressions,
                reach: 0,
                clicks: s.clicks,
                m_leads: s.m_leads,
            },
            crm: count_came(&b.tickets, &b.ads, &p),
        };
        assert(x@ =~= want[i as int]);
        assert(breakdowns_view(out@.push(x)) =~= breakdowns_view(out@).push(x@));
        assert(want.take(i + 1) =~= want.take(i as int).push(want[i as int]));
        out.push(x);
        i += 1;
    }
    assert(want.take(i as int) =~= want);
    out
}

// Trends

#[verifier::ext_equal]
pub struct BucketV {
    pub date: Seq<char>,
    pub impressions: nat,
    pub clicks: nat,
    pub m_leads: nat,
    pub came: Came,
}

impl View for TrendBucket {
    type V = BucketV;

    open spec fn view(&self) -> BucketV {
        BucketV {
            date: self.date@,
            impressions: self.impressions as nat,
            clicks: self.clicks as nat,
            m_leads: self.m_leads as nat,
            came: Came {
                l_leads: self.l_leads as nat,
                qualified: self.qualified as nat,
                visit: self.visit as nat,
                booking: self.booking as nat,
            },
        }
    }
}

pub open spec fn buckets_view(v: Seq<TrendBucket>) -> Seq<BucketV> {
    v.map_values(|t: TrendBucket| t@)
}

/// A day of the trend of a group. The tickets of a day on which nothing was delivered are not in
/// it.
pub open spec fn bucket_of(b: BookV, product: Seq<char>, key: Seq<char>, d: Seq<char>) -> BucketV {
    let p = day_part(product, key, d);
    if is_delivered(b.facts, b.ads, p) {
        let s = sum_of(b.facts, b.ads, p);
        BucketV {
            date: d,
            impressions: s.impressions,
            clicks: s.clicks,
            m_leads: s.m_leads,
            came: came_of(b.tickets, b.ads, p),
        }
    } else {
        BucketV {
            date: d,
            impressions: 0,
            clicks: 0,
            m_leads: 0,
            came: Came { l_leads: 0, qualified: 0, visit: 0, booking: 0 },
        }
    }
}

/// The first `n` days of the trend of a group.
pub open spec fn trend_of(b: BookV, product: Seq<char>, key: Seq<char>, n: nat) -> Seq<BucketV>
    decreases n,
{
    if n == 0 {
        Seq::empty()
    } else {
        let before = trend_of(b, product, key, (n - 1) as nat);
        match shown_day(b.first + n - 1) {
            Some(d) => before.push(bucket_of(b, product, key, d)),
            None => before,
        }
    }
}

fn make_bucket(b: &Book, product: &str, key: &str, d: String) -> (r: TrendBucket)
    requires
        b.wf(),
    ensures
        r@ == bucket_of(b@, product@, key@, d@),
{
    let p = Part { product, key, targeting: None, date: Some(d.as_str()) };
    assert(p@ =~= day_part(product@, key@, d@));
    if find_fact(&b.facts, &b.ads, &p) {
        let s = sum_up(&b.facts, &b.ads, &p);
        let c = count_came(&b.tickets, &b.ads, &p);
        TrendBucket {
            date: d,
            impressions: s.impressions,
            clicks: s.clicks,
            m_leads: s.m_leads,
            l_leads: c.l_leads,
            qualified: c.qualified,
            visit: c.visit,
            booking: c.booking,
        }
    } else {
        TrendBucket {
            date: d,
            impressions: 0,
            clicks: 0,
            m_leads: 0,
            l_leads: 0,
            qualified: 0,
            visit: 0,
            booking: 0,
        }
    }
}

fn list_trend(b: &Book, product: &str, key: &str) -> (r: Vec<TrendBucket>)
    requires
        b.wf(),
    ensures
        buckets_view(r@) == trend_of(b@, product@, key@, b.days as nat),
{
    let mut out: Vec<TrendBucket> = Vec::new();
    let mut i: u32 = 0;
    assert(buckets_view(out@) =~= Seq::empty());
    while i < b.days
        invariant
            i <= b.days,
            b.wf(),
            buckets_view(out@) == trend_of(b@, product@, key@, i as nat),
        decreases b.days - i,
    {
        assert((i + 1) as nat - 1 == i as nat);
        match show_day(b.first + i as i64) {
            Some(d) => {
                let x = make_bucket(b, product, key, d);
                assert(buckets_view(out@.push(x)) =~= buckets_view(out@).push(x@));
                out.push(x);
            },
            None => {},
        }
        i += 1;
    }
    out
}

// Cards

#[verifier::ext_equal]
pub struct CardV {
    pub group_key: Seq<char>,
    pub group_kind: GroupKind,
    pub display_name: Seq<char>,
    pub ad_ids: Seq<Seq<char>>,
    pub campaigns: Seq<Seq<char>>,
    pub is_video: bool,
    pub status: CardStatusV,
    pub created: Option<Seq<char>>,
    pub permalink: Option<Seq<char>>,
    pub image: Option<ImageRefV>,
    pub delivery: DeliveryV,
    pub funnel: Seq<(Seq<char>, nat)>,
    pub targetings: Seq<BreakdownV>,
    pub trend: Seq<BucketV>,
    pub segmentation: Option<Segmentation>,
}

pub open spec fn stages_view(v: Seq<FunnelStage>) -> Seq<(Seq<char>, nat)> {
    v.map_values(|s: FunnelStage| (s.stage@, s.count as nat))
}

impl View for CreativeCard {
    type V = CardV;

    open spec fn view(&self) -> CardV {
        CardV {
            group_key: self.group_key@,
            group_kind: self.group_kind,
            display_name: self.display_name@,
            ad_ids: views(self.ad_ids@),
            campaigns: views(self.campaigns@),
            is_video: self.is_video,
            status: self.status@,
            created: opt_view(self.created),
            permalink: opt_view(self.permalink),
            image: opt_image(self.image),
            delivery: self.delivery@,
            funnel: stages_view(self.funnel@),
            targetings: breakdowns_view(self.targetings@),
            trend: buckets_view(self.trend@),
            segmentation: self.segmentation,
        }
    }
}

pub open spec fn cards_view(v: Seq<CreativeCard>) -> Seq<CardV> {
    v.map_values(|c: CreativeCard| c@)
}

/// The seven steps of a funnel.
pub open spec fn funnel_of(s: Sum, c: Came) -> Seq<(Seq<char>, nat)> {
    seq![
        ("Impressions"@, s.impressions),
        ("Clicks"@, s.clicks),
        ("M-Leads"@, s.m_leads),
        ("L-Leads"@, c.l_leads),
        ("Qualified"@, c.qualified),
        ("Visit"@, c.visit),
        ("Booking"@, c.booking),
    ]
}

pub fn stage(name: &str, count: u64) -> (r: FunnelStage)
    ensures
        r.stage@ == name@,
        r.count == count,
{
    FunnelStage { stage: name.to_owned(), count }
}

/// The leads of the ads by their kinds, where there are any.
pub open spec fn segmentation_of(
    leads: Seq<(Seq<char>, LeadKind)>,
    ads: Seq<Seq<char>>,
) -> Option<Segmentation> {
    if count_leads(leads, ads) > 0 {
        Some(
            Segmentation {
                total: count_leads(leads, ads) as u64,
                captured: count_kind(leads, ads, LeadKind::Captured) as u64,
                reinquiry: count_kind(leads, ads, LeadKind::Reinquiry) as u64,
                duplicate: count_kind(leads, ads, LeadKind::Duplicate) as u64,
                invalid: count_kind(leads, ads, LeadKind::Invalid) as u64,
                uncaptured: count_kind(leads, ads, LeadKind::Uncaptured) as u64,
            },
        )
    } else {
        None
    }
}

/// The card of the group of a product and a key.
pub open spec fn card_of(b: BookV, product: Seq<char>, key: Seq<char>) -> CardV {
    let g = members(b.ads, product, key);
    let p = group_part(product, key);
    let s = sum_of(b.facts, b.ads, p);
    CardV {
        group_key: key,
        group_kind: if g.len() > 0 {
            g[0].kind
        } else {
            GroupKind::AdId
        },
        display_name: display_name_of(g),
        ad_ids: member_ids(g),
        campaigns: campaigns_of(g),
        is_video: has_video(g),
        status: status_of(g, b.adsets),
        created: created_of(g),
        permalink: permalink_of(g),
        image: image_of(g),
        delivery: DeliveryV { spend: spend_of(g, b.rows, b.picked), sum: s },
        funnel: funnel_of(s, came_of(b.tickets, b.ads, p)),
        targetings: breakdowns_of(b, g, product, key),
        trend: trend_of(b, product, key, b.days),
        segmentation: segmentation_of(b.leads, member_ids(g)),
    }
}

/// Every card has the seven steps of the funnel, in their order.
pub proof fn law_card_has_every_step(b: BookV, product: Seq<char>, key: Seq<char>)
    ensures
        card_of(b, product, key).funnel.map_values(|s: (Seq<char>, nat)| s.0) == seq![
            "Impressions"@,
            "Clicks"@,
            "M-Leads"@,
            "L-Leads"@,
            "Qualified"@,
            "Visit"@,
            "Booking"@,
        ],
{
}

/// The trend has a bucket for every day, the first one first, where the calendar has these days.
pub proof fn law_trend_has_every_day(b: BookV, product: Seq<char>, key: Seq<char>, n: nat)
    requires
        forall|i: int| 0 <= i < n ==> (#[trigger] shown_day(b.first + i)) is Some,
    ensures
        trend_of(b, product, key, n).len() == n,
        forall|i: int|
            0 <= i < n ==> shown_day(b.first + i) == Some(
                (#[trigger] trend_of(b, product, key, n)[i]).date,
            ),
    decreases n,
{
    if n > 0 {
        law_trend_has_every_day(b, product, key, (n - 1) as nat);
        assert(shown_day(b.first + (n - 1)) is Some);
    }
}

/// Makes the card of the group of a product and a key.
pub fn into_card(b: &Book, product: &str, key: &str) -> (r: CreativeCard)
    requires
        b.wf(),
    ensures
        r@ == card_of(b@, product@, key@),
{
    let g = list_members(&b.ads, product, key);
    let ghost group = members(b@.ads, product@, key@);
    let p = Part { product, key, targeting: None, date: None };
    assert(p@ =~= group_part(product@, key@));
    let s = sum_up(&b.facts, &b.ads, &p);
    let c = count_came(&b.tickets, &b.ads, &p);
    let ad_ids = list_ids(&g);
    let seg = split(&b.leads, &ad_ids);
    let group_kind = if g.len() > 0 {
        assert(ad_refs(g@)[0] == g@[0]@);
        g[0].kind
    } else {
        GroupKind::AdId
    };
    let funnel = vec![
        stage("Impressions", s.impressions),
        stage("Clicks", s.clicks),
        stage("M-Leads", s.m_leads),
        stage("L-Leads", c.l_leads),
        stage("Qualified", c.qualified),
        stage("Visit", c.visit),
        stage("Booking", c.booking),
    ];
    assert(stages_view(funnel@) =~= funnel_of(s@, c@));
    let segmentation = if seg.total > 0 {
        Some(seg)
    } else {
        None
    };
    assert(segmentation == segmentation_of(b@.leads, member_ids(group)));
    let r = CreativeCard {
        group_key: key.to_owned(),
        group_kind,
        display_name: find_name(&g),
        ad_ids,
        campaigns: list_campaigns(&g),
        is_video: find_video(&g),
        status: status(&g, b.adsets),
        created: find_created(&g),
        permalink: find_permalink(&g),
        image: find_image(&g),
        delivery: Delivery {
            spend: list_spend(&g, b),
            impressions: s.impressions,
            reach: s.reach,
            clicks: s.clicks,
            m_leads: s.m_leads,
        },
        funnel,
        targetings: list_breakdowns(b, &g, product, key),
        trend: list_trend(b, product, key),
        segmentation,
    };
    assert(r@.delivery =~= card_of(b@, product@, key@).delivery);
    r
}

/// Whether a group delivered or brought anything.
pub open spec fn is_shown(c: CardV) -> bool {
    c.delivery.sum.impressions > 0 || c.delivery.sum.m_leads > 0 || c.funnel[3].1 > 0
}

} // verus!
