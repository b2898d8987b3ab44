//! The summary of the last seven days, product by product.

pub mod laws;
pub mod history;
pub mod print;

use crate::crm::tickets_in;
use crate::funnel::{leads_in, leads_together, one, sum_leads};
use crate::json::{json_parsed, lemma_list_view, member, opt_str, pairs_view, text_in, Json, JsonV};
use crate::snapshot::{ads_view, Snapshot, SnapshotV};
use crate::strs::{push_text, same, views};
use crate::window::{
    hits_of, join_tickets, law_picked_rows, pick_rows, places, rows_in, window, window_of, Hit,
    WindowV,
};
use vstd::prelude::*;

verus! {

/// The days of the summary.
pub const BRIEF_DAYS: u32 = 7;

/// What a product did over the days: its rows of ads, its leads, those in the CRM and those of
/// them that are qualified.
#[derive(Debug)]
pub struct ProductTotals {
    /// The indices of the rows, in their order.
    pub rows: Vec<usize>,
    pub m7d: u64,
    pub l7d: u64,
    pub q7d: u64,
}

/// How many hits are qualified.
pub open spec fn qualified_in(hits: Seq<Hit>) -> nat
    decreases hits.len(),
{
    if hits.len() == 0 {
        0
    } else {
        qualified_in(hits.drop_last()) + one(hits.last().qualified)
    }
}

fn count_qualified(hits: &Vec<Hit>) -> (r: u64)
    ensures
        r == qualified_in(hits@),
        r <= hits@.len(),
{
    let mut n: u64 = 0;
    let mut i: usize = 0;
    assert(hits@.take(0) =~= Seq::empty());
    while i < hits.len()
        invariant
            i <= hits@.len(),
            n == qualified_in(hits@.take(i as int)),
            n <= i,
        decreases hits.len() - i,
    {
        assert(hits@.take(i + 1).drop_last() =~= hits@.take(i as int));
        if hits[i].qualified {
            n += 1;
        }
        i += 1;
    }
    assert(hits@.take(i as int) =~= hits@);
    n
}

/// Whether totals are those of a product over the days of a window.
pub open spec fn are_totals(
    t: ProductTotals,
    s: SnapshotV,
    product: Seq<char>,
    w: WindowV,
    m: Seq<u64>,
) -> bool {
    let picked = rows_in(s.ads_daily, product, w);
    let hits = hits_of(tickets_in(s.crm), s.ads_daily, picked, w);
    &&& places(t.rows@) == picked
    &&& t.m7d == leads_in(m, picked)
    &&& t.l7d == hits.len()
    &&& t.q7d == qualified_in(hits)
}

/// Sums up a product over the seven days before the snapshot; `m` holds the leads of each row of
/// the ads. There is none where the days lie outside the calendar.
pub fn compute_product(snap: &Snapshot, product: &str, m: &Vec<u64>) -> (r: Option<ProductTotals>)
    requires
        m@.len() == snap.ads_daily@.len(),
        leads_together(m@) <= u64::MAX,
    ensures
        match window_of(snap.date@, BRIEF_DAYS as nat) {
            Some(w) => r matches Some(t) && are_totals(t, snap@, product@, w, m@),
            None => r is None,
        },
{
    let w = match window(snap.date.as_str(), BRIEF_DAYS) {
        Some(w) => w,
        None => {
            return None;
        },
    };
    let rows = pick_rows(&snap.ads_daily, product, &w);
    let hits = join_tickets(&snap.crm, &snap.ads_daily, &rows, &w);
    proof {
        law_picked_rows(ads_view(snap.ads_daily@), product@, w@);
        crate::funnel::lemma_leads_in(m@, places(rows@));
    }
    let m7d: u64 = sum_leads(m, &rows);
    Some(
        ProductTotals { m7d, l7d: hits.len() as u64, q7d: count_qualified(&hits), rows },
    )
}

/// The least of the numbers that are there.
pub open spec fn least_of(v: Seq<Option<u64>>) -> Option<u64>
    decreases v.len(),
{
    if v.len() == 0 {
        None
    } else {
        match (least_of(v.drop_last()), v.last()) {
            (Some(b), Some(n)) => if b <= n {
                Some(b)
            } else {
                Some(n)
            },
            (Some(b), None) => Some(b),
            (None, o) => o,
        }
    }
}

/// Finds the best price of a qualified lead.
pub fn best_rpq(v: &Vec<Option<u64>>) -> (r: Option<u64>)
    ensures
        r == least_of(v@),
{
    let mut best: Option<u64> = None;
    let mut i: usize = 0;
    assert(v@.take(0) =~= Seq::empty());
    while i < v.len()
        invariant
            i <= v@.len(),
            best == least_of(v@.take(i as int)),
        decreases v.len() - i,
    {
        assert(v@.take(i + 1).drop_last() =~= v@.take(i as int));
        match v[i] {
            Some(n) => {
                best = match best {
                    Some(b) => if b <= n {
                        Some(b)
                    } else {
                        Some(n)
                    },
                    None => Some(n),
                };
            },
            None => {},
        }
        i += 1;
    }
    assert(v@.take(i as int) =~= v@);
    best
}

/// No price is lower than the best one, and the best one is one of them.
pub proof fn law_best_is_least(v: Seq<Option<u64>>)
    ensures
        match least_of(v) {
            Some(b) => v.contains(Some(b)) && forall|i: int|
                0 <= i < v.len() ==> ((#[trigger] v[i]) matches Some(n) ==> b <= n),
            None => forall|i: int| 0 <= i < v.len() ==> (#[trigger] v[i]) is None,
        },
    decreases v.len(),
{
    if v.len() > 0 {
        let rest = v.drop_last();
        law_best_is_least(rest);
        assert(forall|i: int| 0 <= i < rest.len() ==> rest[i] == #[trigger] v[i]);
        assert(v[v.len() - 1] == v.last());
        match least_of(rest) {
            Some(b) => {
                let k = choose|k: int| 0 <= k < rest.len() && rest[k] == Some(b);
                assert(v[k] == Some(b));
            },
            None => {},
        }
    }
}

// Debts

/// Whether an item is not cleared.
pub open spec fn is_open(item: JsonV) -> bool {
    text_in(member(item, "status"@)) != Some("cleared"@)
}

/// The names of the items that are not cleared.
pub open spec fn open_items(pairs: Seq<(Seq<char>, JsonV)>) -> Seq<Seq<char>>
    decreases pairs.len(),
{
    if pairs.len() == 0 {
        Seq::empty()
    } else {
        let before = open_items(pairs.drop_last());
        if is_open(pairs.last().1) {
            before.push(pairs.last().0)
        } else {
            before
        }
    }
}

/// The open items that the text of the list of debts holds.
pub open spec fn open_debt_in(raw: Seq<char>) -> Seq<Seq<char>> {
    match json_parsed(raw) {
        Ok(j) => match member(j, "items"@) {
            Some(JsonV::Object(pairs)) => open_items(pairs),
            _ => Seq::empty(),
        },
        Err(_) => Seq::empty(),
    }
}

fn item_open(item: &Json) -> (r: bool)
    ensures
        r == is_open(item@),
{
    match opt_str(item.get("status")) {
        Some(s) => !same(s, "cleared"),
        None => true,
    }
}

/// Lists what is not set up yet.
pub fn load_open_debt(raw: &str) -> (r: Vec<String>)
    ensures
        views(r@) == open_debt_in(raw@),
{
    let mut out: Vec<String> = Vec::new();
    assert(views(out@) =~= Seq::empty());
    let j = match Json::parse(raw) {
        Ok(j) => j,
        Err(_) => {
            return out;
        },
    };
    match j.get("items") {
        Some(items) => {
            proof {
                lemma_list_view(*items);
            }
            match items {
                Json::Object(pairs) => {
                    let ghost all = pairs_view(pairs@);
                    let mut i: usize = 0;
                    assert(all.take(0) =~= Seq::empty());
                    while i < pairs.len()
                        invariant
                            i <= pairs@.len(),
                            all == pairs_view(pairs@),
                            open_debt_in(raw@) == open_items(all),
                            views(out@) == open_items(all.take(i as int)),
                        decreases pairs.len() - i,
                    {
                        assert(all.take(i + 1).drop_last() =~= all.take(i as int));
                        assert(all[i as int] == (pairs@[i as int].0@, pairs@[i as int].1@));
                        if item_open(&pairs[i].1) {
                            push_text(&mut out, pairs[i].0.clone());
                        }
                        i += 1;
                    }
                    assert(all.take(i as int) =~= all);
                    out
                },
                _ => out,
            }
        },
        None => out,
    }
}

} // verus!
