//! The funnel of one product, by campaign, adset or ad: the leads of the ads joined with what the
//! CRM made of them.

pub mod laws;
pub mod print;

use crate::crm::tickets_in;
use crate::error::Error;
use crate::json::{member, pointer, text_in, JsonV};
use crate::sets::find_text;
use crate::snapshot::{ads_view, AdsDailyRow, AdsDailyRowV, Snapshot, SnapshotV};
use crate::strs::{cat3, cat4, join, joined, push_text, same, views};
use crate::window::{
    hits_of, join_tickets, pick_rows, places, rows_in, window, window_of, Hit, WindowV,
};
use vstd::prelude::*;

verus! {

/// What the rows are put together by.
#[derive(Debug, Clone, Copy, PartialEq, Eq, Structural)]
pub enum By {
    Campaign,
    Adset,
    Ad,
}

pub open spec fn key_of(by: By, r: AdsDailyRowV) -> Seq<char> {
    match by {
        By::Campaign => r.campaign_id,
        By::Adset => r.adset_id,
        By::Ad => r.ad_id,
    }
}

pub open spec fn label_of(by: By, r: AdsDailyRowV) -> Seq<char> {
    match by {
        By::Campaign => r.campaign_name,
        By::Adset => r.adset_name,
        By::Ad => r.ad_name,
    }
}

impl By {
    pub fn parse(s: &str) -> (r: Result<By, Error>)
        ensures
            if s@ == "campaign"@ {
                r matches Ok(By::Campaign)
            } else if s@ == "adset"@ {
                r matches Ok(By::Adset)
            } else if s@ == "ad"@ {
                r matches Ok(By::Ad)
            } else {
                r matches Err(Error::Config(m)) && m@
                    == "--by must be campaign, adset or ad (got \""@ + s@ + "\")"@
            },
    {
        proof {
            reveal_strlit("campaign");
            reveal_strlit("adset");
            reveal_strlit("ad");
        }
        if same(s, "campaign") {
            Ok(By::Campaign)
        } else if same(s, "adset") {
            Ok(By::Adset)
        } else if same(s, "ad") {
            Ok(By::Ad)
        } else {
            Err(Error::Config(cat3("--by must be campaign, adset or ad (got \"", s, "\")")))
        }
    }

    /// The id and the name by which a row is put to its group.
    pub fn ids<'a>(&self, r: &'a AdsDailyRow) -> (p: (&'a str, &'a str))
        ensures
            p.0@ == key_of(*self, r@),
            p.1@ == label_of(*self, r@),
    {
        match self {
            By::Campaign => (r.campaign_id.as_str(), r.campaign_name.as_str()),
            By::Adset => (r.adset_id.as_str(), r.adset_name.as_str()),
            By::Ad => (r.ad_id.as_str(), r.ad_name.as_str()),
        }
    }

    pub fn name(&self) -> (r: &'static str)
        ensures
            r@ == match *self {
                By::Campaign => "campaign"@,
                By::Adset => "adset"@,
                By::Ad => "ad"@,
            },
    {
        match self {
            By::Campaign => "campaign",
            By::Adset => "adset",
            By::Ad => "ad",
        }
    }
}

/// One group of the funnel: its rows, and how many leads came how far.
#[derive(Debug)]
pub struct FunnelGroup {
    pub id: String,
    pub name: String,
    /// The indices of its rows, in their order.
    pub rows: Vec<usize>,
    pub m: u64,
    pub l: u64,
    pub q: u64,
    pub v: u64,
    pub b: u64,
    /// Whether one of its tickets may still move.
    pub immature: bool,
    pub learning: String,
}

#[verifier::ext_equal]
pub struct FunnelGroupV {
    pub id: Seq<char>,
    pub name: Seq<char>,
    pub rows: Seq<int>,
    pub m: nat,
    pub l: nat,
    pub q: nat,
    pub v: nat,
    pub b: nat,
    pub immature: bool,
    pub learning: Seq<char>,
}

impl View for FunnelGroup {
    type V = FunnelGroupV;

    open spec fn view(&self) -> FunnelGroupV {
        FunnelGroupV {
            id: self.id@,
            name: self.name@,
            rows: places(self.rows@),
            m: self.m as nat,
            l: self.l as nat,
            q: self.q as nat,
            v: self.v as nat,
            b: self.b as nat,
            immature: self.immature,
            learning: self.learning@,
        }
    }
}

pub open spec fn groups_view(v: Seq<FunnelGroup>) -> Seq<FunnelGroupV> {
    v.map_values(|g: FunnelGroup| g@)
}

// Groups

/// The keys of the picked rows, each where it comes first.
pub open spec fn keys_in(rows: Seq<AdsDailyRowV>, picked: Seq<int>, by: By) -> Seq<Seq<char>>
    decreases picked.len(),
{
    if picked.len() == 0 {
        Seq::empty()
    } else {
        let before = keys_in(rows, picked.drop_last(), by);
        let key = key_of(by, rows[picked.last()]);
        if before.contains(key) {
            before
        } else {
            before.push(key)
        }
    }
}

/// Those of the picked rows that have this key.
pub open spec fn rows_with(
    rows: Seq<AdsDailyRowV>,
    picked: Seq<int>,
    by: By,
    key: Seq<char>,
) -> Seq<int>
    decreases picked.len(),
{
    if picked.len() == 0 {
        Seq::empty()
    } else {
        let before = rows_with(rows, picked.drop_last(), by, key);
        if key_of(by, rows[picked.last()]) == key {
            before.push(picked.last())
        } else {
            before
        }
    }
}

/// The name of a group: that of its first row which has one, and else its key.
pub open spec fn name_in(
    rows: Seq<AdsDailyRowV>,
    group: Seq<int>,
    by: By,
    key: Seq<char>,
) -> Seq<char>
    decreases group.len(),
{
    if group.len() == 0 {
        Seq::empty()
    } else {
        let before = name_in(rows, group.drop_last(), by, key);
        if before.len() > 0 {
            before
        } else if label_of(by, rows[group.last()]).len() > 0 {
            label_of(by, rows[group.last()])
        } else {
            key
        }
    }
}

/// The leads of rows together; `m` holds those of each row.
pub open spec fn leads_in(m: Seq<u64>, group: Seq<int>) -> nat
    decreases group.len(),
{
    if group.len() == 0 {
        0
    } else {
        leads_in(m, group.drop_last()) + m[group.last()] as nat
    }
}

/// All leads together.
pub open spec fn leads_together(m: Seq<u64>) -> nat
    decreases m.len(),
{
    if m.len() == 0 {
        0
    } else {
        leads_together(m.drop_last()) + m.last() as nat
    }
}

/// How many hits there are, and how many of them came how far.
#[verifier::ext_equal]
pub struct Tally {
    pub l: nat,
    pub q: nat,
    pub v: nat,
    pub b: nat,
    pub recent: nat,
}

pub open spec fn one(b: bool) -> nat {
    if b {
        1
    } else {
        0
    }
}

/// The tally of the hits whose row has this key.
pub open spec fn tally_of(hits: Seq<Hit>, rows: Seq<AdsDailyRowV>, by: By, key: Seq<char>) -> Tally
    decreases hits.len(),
{
    if hits.len() == 0 {
        Tally { l: 0, q: 0, v: 0, b: 0, recent: 0 }
    } else {
        let t = tally_of(hits.drop_last(), rows, by, key);
        let h = hits.last();
        if key_of(by, rows[h.row as int]) == key {
            Tally {
                l: t.l + 1,
                q: t.q + one(h.qualified),
                v: t.v + one(h.visit),
                b: t.b + one(h.booking),
                recent: t.recent + one(h.recent),
            }
        } else {
            t
        }
    }
}

/// The stage of learning of an adset; other groups have none.
pub open spec fn learning_in(adsets: JsonV, id: Seq<char>, by: By) -> Seq<char> {
    if by != By::Adset {
        "-"@
    } else {
        match member(adsets, id) {
            Some(a) => match text_in(pointer(a, "/learning_stage_info/status"@)) {
                Some(s) => s,
                None => "-"@,
            },
            None => "-"@,
        }
    }
}

pub fn learning_of(snap: &Snapshot, id: &str, by: By) -> (r: String)
    ensures
        r@ == learning_in(snap.adsets@, id@, by),
{
    if by != By::Adset {
        return "-".to_owned();
    }
    match snap.adsets.get(id) {
        Some(a) => match a.pointer("/learning_stage_info/status") {
            Some(v) => match v.as_str() {
                Some(s) => s.to_owned(),
                None => "-".to_owned(),
            },
            None => "-".to_owned(),
        },
        None => "-".to_owned(),
    }
}

/// The group of a key.
pub open spec fn group_of(
    s: SnapshotV,
    picked: Seq<int>,
    hits: Seq<Hit>,
    m: Seq<u64>,
    by: By,
    key: Seq<char>,
) -> FunnelGroupV {
    let group = rows_with(s.ads_daily, picked, by, key);
    let t = tally_of(hits, s.ads_daily, by, key);
    FunnelGroupV {
        id: key,
        name: name_in(s.ads_daily, group, by, key),
        rows: group,
        m: leads_in(m, group),
        l: t.l,
        q: t.q,
        v: t.v,
        b: t.b,
        immature: t.recent > 0,
        learning: learning_in(s.adsets, key, by),
    }
}

/// The funnel of a product over the days of a window.
pub open spec fn funnel_of(
    s: SnapshotV,
    product: Seq<char>,
    w: WindowV,
    by: By,
    m: Seq<u64>,
) -> Seq<FunnelGroupV> {
    let picked = rows_in(s.ads_daily, product, w);
    let hits = hits_of(tickets_in(s.crm), s.ads_daily, picked, w);
    keys_in(s.ads_daily, picked, by).map_values(
        |key: Seq<char>| group_of(s, picked, hits, m, by, key),
    )
}

fn distinct_keys(rows: &Vec<AdsDailyRow>, picked: &Vec<usize>, by: By) -> (r: Vec<String>)
    requires
        forall|k: int| 0 <= k < picked@.len() ==> (#[trigger] picked@[k]) < rows@.len(),
    ensures
        views(r@) == keys_in(ads_view(rows@), places(picked@), by),
{
    let ghost all = places(picked@);
    let mut out: Vec<String> = Vec::new();
    let mut k: usize = 0;
    assert(views(out@) =~= Seq::empty());
    assert(all.take(0) =~= Seq::empty());
    while k < picked.len()
        invariant
            k <= picked@.len(),
            all == places(picked@),
            forall|j: int| 0 <= j < picked@.len() ==> (#[trigger] picked@[j]) < rows@.len(),
            views(out@) == keys_in(ads_view(rows@), all.take(k as int), by),
        decreases picked.len() - k,
    {
        assert(all.take(k + 1).drop_last() =~= all.take(k as int));
        assert(all[k as int] == picked@[k as int]);
        let i: usize = picked[k];
        assert(ads_view(rows@)[i as int] == rows@[i as int]@);
        let (id, _) = by.ids(&rows[i]);
        if find_text(&out, id) == out.len() {
            push_text(&mut out, id.to_owned());
        }
        k += 1;
    }
    assert(all.take(k as int) =~= all);
    out
}

fn group_rows(rows: &Vec<AdsDailyRow>, picked: &Vec<usize>, by: By, key: &str) -> (r: Vec<usize>)
    requires
        forall|k: int| 0 <= k < picked@.len() ==> (#[trigger] picked@[k]) < rows@.len(),
    ensures
        places(r@) == rows_with(ads_view(rows@), places(picked@), by, key@),
        forall|k: int| 0 <= k < r@.len() ==> (#[trigger] r@[k]) < rows@.len(),
{
    let ghost all = places(picked@);
    let mut out: Vec<usize> = Vec::new();
    let mut k: usize = 0;
    assert(places(out@) =~= Seq::empty());
    assert(all.take(0) =~= Seq::empty());
    while k < picked.len()
        invariant
            k <= picked@.len(),
            all == places(picked@),
            forall|j: int| 0 <= j < picked@.len() ==> (#[trigger] picked@[j]) < rows@.len(),
            places(out@) == rows_with(ads_view(rows@), all.take(k as int), by, key@),
            forall|j: int| 0 <= j < out@.len() ==> (#[trigger] out@[j]) < rows@.len(),
        decreases picked.len() - k,
    {
        assert(all.take(k + 1).drop_last() =~= all.take(k as int));
        assert(all[k as int] == picked@[k as int]);
        let i: usize = picked[k];
        assert(ads_view(rows@)[i as int] == rows@[i as int]@);
        let (id, _) = by.ids(&rows[i]);
        if same(id, key) {
            assert(places(out@.push(i)) =~= places(out@).push(i as int));
            out.push(i);
        }
        k += 1;
    }
    assert(all.take(k as int) =~= all);
    out
}

fn group_name(rows: &Vec<AdsDailyRow>, group: &Vec<usize>, by: By, key: &str) -> (r: String)
    requires
        forall|k: int| 0 <= k < group@.len() ==> (#[trigger] group@[k]) < rows@.len(),
    ensures
        r@ == name_in(ads_view(rows@), places(group@), by, key@),
{
    let ghost all = places(group@);
    let mut out = String::new();
    let mut k: usize = 0;
    assert(all.take(0) =~= Seq::empty());
    while k < group.len()
        invariant
            k <= group@.len(),
            all == places(group@),
            forall|j: int| 0 <= j < group@.len() ==> (#[trigger] group@[j]) < rows@.len(),
            out@ == name_in(ads_view(rows@), all.take(k as int), by, key@),
        decreases group.len() - k,
    {
        assert(all.take(k + 1).drop_last() =~= all.take(k as int));
        assert(all[k as int] == group@[k as int]);
        let i: usize = group[k];
        assert(ads_view(rows@)[i as int] == rows@[i as int]@);
        if out.as_str().is_empty() {
            let (_, name) = by.ids(&rows[i]);
            out = if name.is_empty() {
                key.to_owned()
            } else {
                name.to_owned()
            };
        }
        k += 1;
    }
    assert(all.take(k as int) =~= all);
    out
}

/// The leads of rows are not more than all leads, where each row comes once.
pub proof fn lemma_leads_in(m: Seq<u64>, group: Seq<int>)
    requires
        forall|a: int| 0 <= a < group.len() ==> 0 <= (#[trigger] group[a]) < m.len(),
        forall|a: int, b: int|
            0 <= a < b < group.len() ==> (#[trigger] group[a]) < (#[trigger] group[b]),
    ensures
        leads_in(m, group) <= leads_together(m),
    decreases m.len(),
{
    if m.len() > 0 {
        let n = m.len() - 1;
        let rest = m.drop_last();
        if group.len() > 0 && group.last() == n {
            let g = group.drop_last();
            assert forall|a: int| 0 <= a < g.len() implies 0 <= (#[trigger] g[a]) < rest.len() by {
                assert(g[a] == group[a]);
                assert(group[a] < group[group.len() - 1]);
            }
            assert forall|a: int, b: int| 0 <= a < b < g.len() implies (#[trigger] g[a]) < (
            #[trigger] g[b]) by {
                assert(group[a] < group[b]);
            }
            lemma_leads_in(rest, g);
            lemma_leads_same(m, rest, g);
        } else {
            assert forall|a: int| 0 <= a < group.len() implies 0 <= (#[trigger] group[a])
                < rest.len() by {
                if a < group.len() - 1 {
                    assert(group[a] < group[group.len() - 1]);
                }
                assert(group[group.len() - 1] < m.len());
            }
            lemma_leads_in(rest, group);
            lemma_leads_same(m, rest, group);
        }
    } else if group.len() > 0 {
        assert(0 <= group[0] < m.len());
    }
}

proof fn lemma_leads_same(m: Seq<u64>, rest: Seq<u64>, group: Seq<int>)
    requires
        m.len() > 0,
        rest == m.drop_last(),
        forall|a: int| 0 <= a < group.len() ==> 0 <= (#[trigger] group[a]) < rest.len(),
    ensures
        leads_in(m, group) == leads_in(rest, group),
    decreases group.len(),
{
    if group.len() > 0 {
        assert(forall|a: int|
            0 <= a < group.len() - 1 ==> group.drop_last()[a] == #[trigger] group[a]);
        lemma_leads_same(m, rest, group.drop_last());
        assert(0 <= group[group.len() - 1] < rest.len());
    }
}

proof fn lemma_leads_prefix(m: Seq<u64>, group: Seq<int>, k: int)
    requires
        0 <= k <= group.len(),
    ensures
        leads_in(m, group.take(k)) <= leads_in(m, group),
    decreases group.len() - k,
{
    if k < group.len() {
        assert(group.take(k + 1).drop_last() =~= group.take(k));
        lemma_leads_prefix(m, group, k + 1);
    } else {
        assert(group.take(k) =~= group);
    }
}

pub(crate) fn sum_leads(m: &Vec<u64>, group: &Vec<usize>) -> (r: u64)
    requires
        forall|k: int| 0 <= k < group@.len() ==> (#[trigger] group@[k]) < m@.len(),
        leads_in(m@, places(group@)) <= u64::MAX,
    ensures
        r == leads_in(m@, places(group@)),
{
    let ghost all = places(group@);
    let mut n: u64 = 0;
    let mut k: usize = 0;
    assert(all.take(0) =~= Seq::empty());
    while k < group.len()
        invariant
            k <= group@.len(),
            all == places(group@),
            forall|j: int| 0 <= j < group@.len() ==> (#[trigger] group@[j]) < m@.len(),
            leads_in(m@, all) <= u64::MAX,
            n == leads_in(m@, all.take(k as int)),
        decreases group.len() - k,
    {
        assert(all.take(k + 1).drop_last() =~= all.take(k as int));
        assert(all[k as int] == group@[k as int]);
        proof {
            lemma_leads_prefix(m@, all, k + 1);
        }
        n += m[group[k]];
        k += 1;
    }
    assert(all.take(k as int) =~= all);
    n
}

/// How many hits there are of a group, and how many of them came how far.
struct Count {
    l: u64,
    q: u64,
    v: u64,
    b: u64,
    recent: u64,
}

fn count_hits(hits: &Vec<Hit>, rows: &Vec<AdsDailyRow>, by: By, key: &str) -> (r: Count)
    requires
        forall|k: int| 0 <= k < hits@.len() ==> (#[trigger] hits@[k]).row < rows@.len(),
    ensures
        (Tally {
            l: r.l as nat,
            q: r.q as nat,
            v: r.v as nat,
            b: r.b as nat,
            recent: r.recent as nat,
        }) == tally_of(hits@, ads_view(rows@), by, key@),
{
    let mut c = Count { l: 0, q: 0, v: 0, b: 0, recent: 0 };
    let mut k: usize = 0;
    assert(hits@.take(0) =~= Seq::empty());
    while k < hits.len()
        invariant
            k <= hits@.len(),
            forall|j: int| 0 <= j < hits@.len() ==> (#[trigger] hits@[j]).row < rows@.len(),
            (Tally {
                l: c.l as nat,
                q: c.q as nat,
                v: c.v as nat,
                b: c.b as nat,
                recent: c.recent as nat,
            }) == tally_of(hits@.take(k as int), ads_view(rows@), by, key@),
            c.l <= k,
            c.q <= k,
            c.v <= k,
            c.b <= k,
            c.recent <= k,
        decreases hits.len() - k,
    {
        assert(hits@.take(k + 1).drop_last() =~= hits@.take(k as int));
        let h = hits[k];
        assert(ads_view(rows@)[h.row as int] == rows@[h.row as int]@);
        let (id, _) = by.ids(&rows[h.row]);
        if same(id, key) {
            c.l += 1;
            if h.qualified {
                c.q += 1;
            }
            if h.visit {
                c.v += 1;
            }
            if h.booking {
                c.b += 1;
            }
            if h.recent {
                c.recent += 1;
            }
        }
        k += 1;
    }
    assert(hits@.take(k as int) =~= hits@);
    c
}

proof fn lemma_rows_with_ascend(rows: Seq<AdsDailyRowV>, picked: Seq<int>, by: By, key: Seq<char>)
    requires
        forall|a: int, b: int|
            0 <= a < b < picked.len() ==> (#[trigger] picked[a]) < (#[trigger] picked[b]),
    ensures
        forall|a: int|
            0 <= a < rows_with(rows, picked, by, key).len() ==> picked.contains(
                #[trigger] rows_with(rows, picked, by, key)[a],
            ),
        forall|a: int, b: int|
            0 <= a < b < rows_with(rows, picked, by, key).len() ==> (#[trigger] rows_with(
                rows,
                picked,
                by,
                key,
            )[a]) < (#[trigger] rows_with(rows, picked, by, key)[b]),
    decreases picked.len(),
{
    if picked.len() > 0 {
        let rest = picked.drop_last();
        assert forall|a: int, b: int| 0 <= a < b < rest.len() implies (#[trigger] rest[a]) < (
        #[trigger] rest[b]) by {
            assert(picked[a] < picked[b]);
        }
        lemma_rows_with_ascend(rows, rest, by, key);
        let before = rows_with(rows, rest, by, key);
        let now = rows_with(rows, picked, by, key);
        assert forall|a: int| 0 <= a < now.len() implies picked.contains(#[trigger] now[a]) by {
            if a < before.len() {
                assert(now[a] == before[a]);
                let k = choose|k: int| 0 <= k < rest.len() && rest[k] == before[a];
                assert(picked[k] == now[a]);
            } else {
                assert(picked[picked.len() - 1] == now[a]);
            }
        }
        assert forall|a: int, b: int| 0 <= a < b < now.len() implies (#[trigger] now[a]) < (
        #[trigger] now[b]) by {
            assert(now[a] == before[a]);
            if b < before.len() {
                assert(now[b] == before[b]);
            } else {
                assert(rest.contains(before[a]));
                let k = choose|k: int| 0 <= k < rest.len() && rest[k] == before[a];
                assert(picked[k] < picked[picked.len() - 1]);
            }
        }
    }
}

proof fn lemma_together_prefix(m: Seq<u64>, k: int)
    requires
        0 <= k <= m.len(),
    ensures
        leads_together(m.take(k)) <= leads_together(m),
    decreases m.len() - k,
{
    if k < m.len() {
        assert(m.take(k + 1).drop_last() =~= m.take(k));
        lemma_together_prefix(m, k + 1);
    } else {
        assert(m.take(k) =~= m);
    }
}

/// All leads together, where `u64` holds them.
pub fn total_leads(m: &Vec<u64>) -> (r: Option<u64>)
    ensures
        match r {
            Some(n) => n == leads_together(m@),
            None => leads_together(m@) > u64::MAX,
        },
{
    let mut n: u64 = 0;
    let mut k: usize = 0;
    assert(m@.take(0) =~= Seq::empty());
    while k < m.len()
        invariant
            k <= m@.len(),
            n == leads_together(m@.take(k as int)),
        decreases m.len() - k,
    {
        assert(m@.take(k + 1).drop_last() =~= m@.take(k as int));
        proof {
            lemma_together_prefix(m@, k + 1);
        }
        match n.checked_add(m[k]) {
            Some(x) => {
                n = x;
            },
            None => {
                return None;
            },
        }
        k += 1;
    }
    assert(m@.take(k as int) =~= m@);
    Some(n)
}

/// The groups of the funnel of a product over the last `days` days before the snapshot, one at
/// least; `m` holds the leads of each row of the ads. There is none where the days lie outside the
/// calendar.
pub fn compute(
    snap: &Snapshot,
    product: &str,
    days: u32,
    by: By,
    m: &Vec<u64>,
) -> (r: Option<Vec<FunnelGroup>>)
    requires
        m@.len() == snap.ads_daily@.len(),
        leads_together(m@) <= u64::MAX,
    ensures
        match window_of(snap.date@, days as nat) {
            Some(w) => r matches Some(v) && groups_view(v@) == funnel_of(
                snap@,
                product@,
                w,
                by,
                m@,
            ),
            None => r is None,
        },
{
    let w = match window(snap.date.as_str(), days) {
        Some(w) => w,
        None => {
            return None;
        },
    };
    let rows = &snap.ads_daily;
    let picked = pick_rows(rows, product, &w);
    let hits = join_tickets(&snap.crm, rows, &picked, &w);
    let keys = distinct_keys(rows, &picked, by);
    let ghost all = funnel_of(snap@, product@, w@, by, m@);
    let mut out: Vec<FunnelGroup> = Vec::new();
    let mut i: usize = 0;
    assert(groups_view(out@) =~= all.take(0));
    while i < keys.len()
        invariant
            i <= keys@.len(),
            rows == snap.ads_daily,
            m@.len() == rows@.len(),
            leads_together(m@) <= u64::MAX,
            forall|k: int| 0 <= k < picked@.len() ==> (#[trigger] picked@[k]) < rows@.len(),
            forall|k: int| 0 <= k < hits@.len() ==> (#[trigger] hits@[k]).row < rows@.len(),
            places(picked@) == rows_in(ads_view(rows@), product@, w@),
            hits@ == hits_of(tickets_in(snap.crm@), ads_view(rows@), places(picked@), w@),
            views(keys@) == keys_in(ads_view(rows@), places(picked@), by),
            all == funnel_of(snap@, product@, w@, by, m@),
            groups_view(out@) == all.take(i as int),
        decreases keys.len() - i,
    {
        assert(views(keys@)[i as int] == keys@[i as int]@);
        let key = keys[i].as_str();
        let group = group_rows(rows, &picked, by, key);
        proof {
            let p = places(picked@);
            crate::window::law_picked_rows(ads_view(rows@), product@, w@);
            lemma_rows_with_ascend(ads_view(rows@), p, by, key@);
            assert forall|a: int| 0 <= a < places(group@).len() implies 0 <= (
            #[trigger] places(group@)[a]) < m@.len() by {
                assert(places(group@)[a] == group@[a]);
            }
            lemma_leads_in(m@, places(group@));
        }
        let c = count_hits(&hits, rows, by, key);
        let g = FunnelGroup {
            id: keys[i].clone(),
            name: group_name(rows, &group, by, key),
            m: sum_leads(m, &group),
            rows: group,
            l: c.l,
            q: c.q,
            v: c.v,
            b: c.b,
            immature: c.recent > 0,
            learning: learning_of(snap, key, by),
        };
        assert(g@ =~= all[i as int]);
        assert(groups_view(out@.push(g)) =~= groups_view(out@).push(g@));
        assert(all.take(i + 1) =~= all.take(i as int).push(g@));
        out.push(g);
        i += 1;
    }
    assert(views(keys@).len() == keys@.len());
    assert(all.take(i as int) =~= all);
    Some(out)
}

// Products

pub open spec fn unknown_product(product: Seq<char>, known: Seq<Seq<char>>) -> Seq<char> {
    "unknown product \""@ + product + "\" - configured: "@ + joined(known, ", "@)
}

/// Whether a product is one of those that are configured, where any are.
pub fn check_product(product: &str, known: &Vec<String>) -> (r: Result<(), Error>)
    ensures
        match r {
            Ok(_) => known@.len() == 0 || views(known@).contains(product@),
            Err(e) => known@.len() > 0 && !views(known@).contains(product@) && (
            e matches Error::Config(m) && m@ == unknown_product(product@, views(known@))),
        },
{
    if known.len() == 0 || find_text(known, product) < known.len() {
        Ok(())
    } else {
        Err(
            Error::Config(
                cat4(
                    "unknown product \"",
                    product,
                    "\" - configured: ",
                    join(known, ", ").as_str(),
                ),
            ),
        )
    }
}

// Laws

/// In every group a lead that was visited is qualified, so that no more were visited than are
/// qualified, and no more are qualified than there are.
pub proof fn law_tally_narrows(hits: Seq<Hit>, rows: Seq<AdsDailyRowV>, by: By, key: Seq<char>)
    requires
        forall|k: int| 0 <= k < hits.len() ==> ((#[trigger] hits[k]).visit ==> hits[k].qualified),
    ensures
        tally_of(hits, rows, by, key).v <= tally_of(hits, rows, by, key).q,
        tally_of(hits, rows, by, key).q <= tally_of(hits, rows, by, key).l,
        tally_of(hits, rows, by, key).b <= tally_of(hits, rows, by, key).l,
    decreases hits.len(),
{
    if hits.len() > 0 {
        assert(forall|k: int|
            0 <= k < hits.len() - 1 ==> hits.drop_last()[k] == #[trigger] hits[k]);
        law_tally_narrows(hits.drop_last(), rows, by, key);
        assert(hits[hits.len() - 1] == hits.last());
    }
}

/// The hits of tickets are such: one that was visited is qualified.
pub proof fn law_visited_hits_are_qualified(
    tickets: Seq<JsonV>,
    rows: Seq<AdsDailyRowV>,
    picked: Seq<int>,
    w: WindowV,
)
    ensures
        forall|k: int|
            0 <= k < hits_of(tickets, rows, picked, w).len() ==> ((#[trigger] hits_of(
                tickets,
                rows,
                picked,
                w,
            )[k]).visit ==> hits_of(tickets, rows, picked, w)[k].qualified),
    decreases tickets.len(),
{
    if tickets.len() > 0 {
        law_visited_hits_are_qualified(tickets.drop_last(), rows, picked, w);
        let before = hits_of(tickets.drop_last(), rows, picked, w);
        let now = hits_of(tickets, rows, picked, w);
        assert forall|k: int| 0 <= k < now.len() implies ((#[trigger] now[k]).visit
            ==> now[k].qualified) by {
            if k < before.len() {
                assert(now[k] == before[k]);
            }
        }
    }
}

/// The leads of the groups of keys together.
pub open spec fn leads_of_keys(
    keys: Seq<Seq<char>>,
    hits: Seq<Hit>,
    rows: Seq<AdsDailyRowV>,
    by: By,
) -> nat
    decreases keys.len(),
{
    if keys.len() == 0 {
        0
    } else {
        leads_of_keys(keys.drop_last(), hits, rows, by) + tally_of(hits, rows, by, keys.last()).l
    }
}

proof fn lemma_add_hit(keys: Seq<Seq<char>>, hits: Seq<Hit>, rows: Seq<AdsDailyRowV>, by: By)
    requires
        keys.no_duplicates(),
        hits.len() > 0,
    ensures
        leads_of_keys(keys, hits, rows, by) == leads_of_keys(keys, hits.drop_last(), rows, by)
            + one(keys.contains(key_of(by, rows[hits.last().row as int]))),
    decreases keys.len(),
{
    let key = key_of(by, rows[hits.last().row as int]);
    if keys.len() > 0 {
        let rest = keys.drop_last();
        assert(rest.no_duplicates()) by {
            assert forall|i: int, j: int| 0 <= i < rest.len() && 0 <= j < rest.len() && i
                != j implies rest[i] != rest[j] by {
                assert(keys[i] != keys[j]);
            }
        }
        lemma_add_hit(rest, hits, rows, by);
        if keys.last() == key {
            if rest.contains(key) {
                let k = choose|k: int| 0 <= k < rest.len() && rest[k] == key;
                assert(keys[k] != keys[keys.len() - 1]);
            }
            assert(keys[keys.len() - 1] == key);
        } else {
            if rest.contains(key) {
                let k = choose|k: int| 0 <= k < rest.len() && rest[k] == key;
                assert(keys[k] == key);
            }
            if keys.contains(key) {
                let k = choose|k: int| 0 <= k < keys.len() && keys[k] == key;
                assert(rest[k] == key);
            }
        }
    }
}

pub proof fn lemma_keys_in(rows: Seq<AdsDailyRowV>, picked: Seq<int>, by: By)
    ensures
        keys_in(rows, picked, by).no_duplicates(),
        forall|k: int|
            0 <= k < picked.len() ==> keys_in(rows, picked, by).contains(
                key_of(by, rows[#[trigger] picked[k]]),
            ),
    decreases picked.len(),
{
    if picked.len() > 0 {
        let rest = picked.drop_last();
        lemma_keys_in(rows, rest, by);
        let before = keys_in(rows, rest, by);
        let now = keys_in(rows, picked, by);
        let key = key_of(by, rows[picked.last()]);
        assert forall|k: int| 0 <= k < picked.len() implies now.contains(
            key_of(by, rows[#[trigger] picked[k]]),
        ) by {
            let x = key_of(by, rows[picked[k]]);
            if k < rest.len() {
                assert(rest[k] == picked[k]);
                assert(before.contains(x));
                let m = choose|m: int| 0 <= m < before.len() && before[m] == x;
                assert(now[m] == x);
            } else if !before.contains(key) {
                assert(now[before.len() as int] == key);
            }
        }
    }
}

proof fn lemma_row_of_ad(rows: Seq<AdsDailyRowV>, picked: Seq<int>, ad: Seq<char>)
    ensures
        crate::window::row_of_ad(rows, picked, ad) matches Some(i) ==> picked.contains(i),
    decreases picked.len(),
{
    if picked.len() > 0 {
        if rows[picked[0]].ad_id != ad {
            lemma_row_of_ad(rows, picked.drop_first(), ad);
            match crate::window::row_of_ad(rows, picked.drop_first(), ad) {
                Some(i) => {
                    let k = choose|k: int|
                        0 <= k < picked.drop_first().len() && picked.drop_first()[k] == i;
                    assert(picked[k + 1] == i);
                },
                None => {},
            }
        }
    }
}

/// Every ticket of the days that one of the ads brought is counted in just one group.
pub proof fn law_every_hit_is_counted_once(
    tickets: Seq<JsonV>,
    rows: Seq<AdsDailyRowV>,
    picked: Seq<int>,
    w: WindowV,
    by: By,
)
    requires
        forall|k: int| 0 <= k < picked.len() ==> 0 <= (#[trigger] picked[k]) <= usize::MAX,
    ensures
        leads_of_keys(keys_in(rows, picked, by), hits_of(tickets, rows, picked, w), rows, by)
            == hits_of(tickets, rows, picked, w).len(),
    decreases tickets.len(),
{
    let keys = keys_in(rows, picked, by);
    lemma_keys_in(rows, picked, by);
    let hits = hits_of(tickets, rows, picked, w);
    if tickets.len() > 0 {
        law_every_hit_is_counted_once(tickets.drop_last(), rows, picked, w, by);
        let t = tickets.last();
        match crate::window::hit_of(t, rows, picked, w) {
            Some(h) => {
                let ad = match crate::crm::ad_id_in(t) {
                    Some(a) => a,
                    None => Seq::empty(),
                };
                lemma_row_of_ad(rows, picked, ad);
                let i = crate::window::row_of_ad(rows, picked, ad)->0;
                let k = choose|k: int| 0 <= k < picked.len() && picked[k] == i;
                assert(0 <= picked[k] <= usize::MAX);
                assert(h.row as int == i);
                assert(keys.contains(key_of(by, rows[picked[k]])));
                lemma_add_hit(keys, hits, rows, by);
                assert(hits.drop_last() =~= hits_of(tickets.drop_last(), rows, picked, w));
            },
            None => {},
        }
    } else {
        lemma_no_hits(keys, rows, by);
    }
}

proof fn lemma_no_hits(keys: Seq<Seq<char>>, rows: Seq<AdsDailyRowV>, by: By)
    ensures
        leads_of_keys(keys, Seq::empty(), rows, by) == 0,
    decreases keys.len(),
{
    if keys.len() > 0 {
        lemma_no_hits(keys.drop_last(), rows, by);
    }
}

} // verus!
