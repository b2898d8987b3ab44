//! Where a creative earns its leads at less cost than elsewhere.

use crate::funnel::{leads_together, total_leads};
use crate::report::markup::{fill, filled};
use crate::strs::{push_text, views};
use crate::window::places;
use vstd::prelude::*;

pub mod laws;

verus! {

/// What a targeting of a creative brought: its leads, whether enough of them for enough money to
/// be judged, and the place of the cost of a lead among such costs, the least first.
#[derive(Debug, Clone, Copy, PartialEq, Eq, Structural)]
pub struct Cell {
    pub m_leads: u64,
    pub enough: bool,
    pub cost: u64,
}

/// The cell of a targeting. Judging it takes five leads, and that enough was spent.
pub fn cell(m_leads: u64, spent_enough: bool, cost: u64) -> (r: Cell)
    ensures
        r == (Cell { m_leads, enough: m_leads >= 5 && spent_enough, cost }),
{
    Cell { m_leads, enough: m_leads >= 5 && spent_enough, cost }
}

/// Of cells the one that can be judged and costs least, the first one of several; and the others,
/// in the order in which they are left behind.
pub open spec fn pooled(cells: Seq<Cell>) -> (Option<int>, Seq<int>)
    decreases cells.len(),
{
    if cells.len() == 0 {
        (None, Seq::empty())
    } else {
        let (best, rest) = pooled(cells.drop_last());
        let i = cells.len() - 1;
        let c = cells.last();
        match best {
            Some(b) => if c.enough && c.cost < cells[b].cost {
                (Some(i), rest.push(b))
            } else {
                (best, rest.push(i))
            },
            None => if c.enough {
                (Some(i), rest)
            } else {
                (None, rest.push(i))
            },
        }
    }
}

pub open spec fn opt_place(o: Option<usize>) -> Option<int> {
    match o {
        Some(i) => Some(i as int),
        None => None,
    }
}

/// Tells the best cell from the others.
pub fn pool(cells: &Vec<Cell>) -> (r: (Option<usize>, Vec<usize>))
    ensures
        (opt_place(r.0), places(r.1@)) == pooled(cells@),
        r.0 matches Some(i) ==> i < cells@.len(),
        forall|k: int| 0 <= k < r.1@.len() ==> (#[trigger] r.1@[k]) < cells@.len(),
{
    let mut best: Option<usize> = None;
    let mut rest: Vec<usize> = Vec::new();
    let mut i: usize = 0;
    assert(places(rest@) =~= Seq::empty());
    assert(cells@.take(0) =~= Seq::empty());
    while i < cells.len()
        invariant
            i <= cells@.len(),
            (opt_place(best), places(rest@)) == pooled(cells@.take(i as int)),
            best matches Some(b) ==> b < i,
            forall|k: int| 0 <= k < rest@.len() ==> (#[trigger] rest@[k]) < i,
        decreases cells.len() - i,
    {
        let ghost now = cells@.take(i + 1);
        assert(now.drop_last() =~= cells@.take(i as int));
        let c = cells[i];
        match best {
            Some(b) => {
                assert(now[b as int] == cells@[b as int]);
                if c.enough && c.cost < cells[b].cost {
                    assert(places(rest@.push(b)) =~= places(rest@).push(b as int));
                    rest.push(b);
                    best = Some(i);
                } else {
                    assert(places(rest@.push(i)) =~= places(rest@).push(i as int));
                    rest.push(i);
                }
            },
            None => {
                if c.enough {
                    best = Some(i);
                } else {
                    assert(places(rest@.push(i)) =~= places(rest@).push(i as int));
                    rest.push(i);
                }
            },
        }
        i += 1;
    }
    assert(cells@.take(i as int) =~= cells@);
    (best, rest)
}

/// The leads of some of the cells, in turn.
pub open spec fn leads_at(cells: Seq<Cell>, at: Seq<usize>) -> Seq<u64> {
    at.map_values(|i: usize| cells[i as int].m_leads)
}

/// The leads of some of the cells together, where `u64` holds them.
pub fn rest_leads(cells: &Vec<Cell>, at: &Vec<usize>) -> (r: Option<u64>)
    requires
        forall|k: int| 0 <= k < at@.len() ==> (#[trigger] at@[k]) < cells@.len(),
    ensures
        match r {
            Some(n) => n == leads_together(leads_at(cells@, at@)),
            None => leads_together(leads_at(cells@, at@)) > u64::MAX,
        },
{
    let ghost all = leads_at(cells@, at@);
    let mut m: Vec<u64> = Vec::new();
    let mut k: usize = 0;
    while k < at.len()
        invariant
            k <= at@.len(),
            all == leads_at(cells@, at@),
            m@ == all.take(k as int),
            forall|k: int| 0 <= k < at@.len() ==> (#[trigger] at@[k]) < cells@.len(),
        decreases at.len() - k,
    {
        assert(at@[k as int] < cells@.len());
        assert(all.take(k + 1) =~= all.take(k as int).push(all[k as int]));
        m.push(cells[at[k]].m_leads);
        k += 1;
    }
    assert(all.take(k as int) =~= all);
    total_leads(&m)
}

/// The best cell can be judged, and none that can be costs less. Every other cell is left behind
/// once.
pub proof fn law_pool_tells_the_best(cells: Seq<Cell>)
    ensures
        match pooled(cells).0 {
            Some(b) => 0 <= b < cells.len() && cells[b].enough && forall|i: int|
                0 <= i < cells.len() && (#[trigger] cells[i]).enough ==> cells[b].cost
                    <= cells[i].cost,
            None => forall|i: int| 0 <= i < cells.len() ==> !(#[trigger] cells[i]).enough,
        },
        forall|i: int|
            0 <= i < cells.len() ==> (Some(i) == pooled(cells).0 || #[trigger] pooled(
                cells,
            ).1.contains(i)),
        pooled(cells).1.len() + (if pooled(cells).0 is Some {
            1nat
        } else {
            0
        }) == cells.len(),
    decreases cells.len(),
{
    if cells.len() > 0 {
        let fewer = cells.drop_last();
        law_pool_tells_the_best(fewer);
        let (best, rest) = pooled(fewer);
        let (now, left) = pooled(cells);
        let n = cells.len() - 1;
        assert(forall|i: int| 0 <= i < n ==> fewer[i] == #[trigger] cells[i]);
        assert forall|i: int| 0 <= i < cells.len() implies (Some(i) == now
            || #[trigger] left.contains(i)) by {
            if i < n {
                if best == Some(i) {
                    if now != Some(i) {
                        assert(left[left.len() - 1] == i);
                    }
                } else {
                    assert(rest.contains(i));
                    let k = choose|k: int| 0 <= k < rest.len() && rest[k] == i;
                    assert(left[k] == i);
                }
            } else if now != Some(n) {
                assert(left[left.len() - 1] == n);
            }
        }
    }
}

/// What is read across the targetings of a creative; costs are given as they are shown.
#[derive(Debug)]
pub struct CrossCard {
    pub name: String,
    /// How many targetings it has, and the best one.
    pub targetings: usize,
    pub best: Option<String>,
    pub best_cost: String,
    /// The leads of the others and what one of them costs.
    pub rest_leads: u64,
    pub rest_cost: String,
    /// Whether a lead of the best one costs so much less.
    pub concentrated: bool,
}

pub open spec fn cross_line(c: CrossCard) -> Option<Seq<char>> {
    match c.best {
        Some(t) => if c.targetings >= 2 && c.rest_leads >= 5 && c.concentrated {
            Some(
                filled(
                    "\"{}\" earns leads at Rs {} in {} vs Rs {} elsewhere - concentrate it there."@,
                    seq![c.name@, c.best_cost@, t@, c.rest_cost@],
                ),
            )
        } else {
            None
        },
        None => None,
    }
}

/// The first two lines that can be read across targetings.
pub open spec fn cross_lines(cards: Seq<CrossCard>) -> Seq<Seq<char>>
    decreases cards.len(),
{
    if cards.len() == 0 {
        Seq::empty()
    } else {
        let before = cross_lines(cards.drop_last());
        match cross_line(cards.last()) {
            Some(t) => if before.len() < 2 {
                before.push(t)
            } else {
                before
            },
            None => before,
        }
    }
}

/// Reads across the targetings of creatives.
pub fn cross_reads(cards: &Vec<CrossCard>) -> (r: Vec<String>)
    ensures
        views(r@) == cross_lines(cards@),
        r@.len() <= 2,
{
    let mut out: Vec<String> = Vec::new();
    let mut i: usize = 0;
    assert(views(out@) =~= Seq::empty());
    assert(cards@.take(0) =~= Seq::empty());
    while i < cards.len()
        invariant
            i <= cards@.len(),
            views(out@) == cross_lines(cards@.take(i as int)),
            out@.len() <= 2,
        decreases cards.len() - i,
    {
        assert(cards@.take(i + 1).drop_last() =~= cards@.take(i as int));
        assert(views(out@).len() == out@.len());
        let c = &cards[i];
        if out.len() < 2 && c.targetings >= 2 && c.rest_leads >= 5 && c.concentrated {
            if let Some(t) = &c.best {
                let line = fill(
                    "\"{}\" earns leads at Rs {} in {} vs Rs {} elsewhere - concentrate it there.",
                    &vec![c.name.as_str(), c.best_cost.as_str(), t.as_str(), c.rest_cost.as_str()],
                );
                push_text(&mut out, line);
            }
        }
        i += 1;
    }
    assert(cards@.take(i as int) =~= cards@);
    out
}

} // verus!
