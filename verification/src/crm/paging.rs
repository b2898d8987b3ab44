//! Which records of a page are kept, and when the last page has come.

use crate::crm::source::{get_path, path_in, records, records_of, MapSpec, PagingMode, SourceSpec};
use crate::crm::{epoch_in, parse_epoch};
use crate::error::Error;
use crate::json::{lemma_list_push, list_view, member, nat_in, Json, JsonV};
use crate::strs::{cat4, dec, decimal};
use vstd::prelude::*;

pub mod laws;

verus! {

/// Whether a record stays: its time is not before the window, or it has none that reads.
pub open spec fn is_kept(rec: JsonV, delivery: Seq<char>, from: i64) -> bool {
    match path_in(rec, delivery) {
        Some(d) => match epoch_in(d) {
            Some(e) => e >= from,
            None => true,
        },
        None => true,
    }
}

/// The records that stay, in their order.
pub open spec fn kept_of(batch: Seq<JsonV>, delivery: Seq<char>, from: i64) -> Seq<JsonV> {
    batch.filter(|rec: JsonV| is_kept(rec, delivery, from))
}

fn keeps(rec: &Json, map: &MapSpec, from: i64) -> (r: bool)
    ensures
        r == is_kept(rec@, map@.delivery, from),
{
    match get_path(rec, map.delivery.as_str()) {
        Some(d) => match parse_epoch(d) {
            Some(e) => e >= from,
            None => true,
        },
        None => true,
    }
}

/// Drops the records that are older than the window. A record whose time is missing or does not
/// read is kept.
pub fn keep_records(batch: &Vec<Json>, map: &MapSpec, from_epoch: i64) -> (r: Vec<Json>)
    ensures
        list_view(r@) == kept_of(list_view(batch@), map@.delivery, from_epoch),
        r@.len() <= batch@.len(),
{
    let ghost all = list_view(batch@);
    let mut out: Vec<Json> = Vec::new();
    let mut i: usize = 0;
    proof {
        reveal(Seq::filter);
        assert(all.take(0) =~= Seq::empty());
        assert(list_view(out@) =~= kept_of(all.take(0), map@.delivery, from_epoch));
    }
    while i < batch.len()
        invariant
            i <= batch@.len(),
            out@.len() <= i,
            all == list_view(batch@),
            list_view(out@) == kept_of(all.take(i as int), map@.delivery, from_epoch),
        decreases batch.len() - i,
    {
        proof {
            reveal(Seq::filter);
            assert(all.take(i + 1).drop_last() =~= all.take(i as int));
            assert(all[i as int] == batch@[i as int]@);
        }
        if keeps(&batch[i], map, from_epoch) {
            let j = batch[i].copy();
            proof {
                lemma_list_push(out@, j);
            }
            out.push(j);
        }
        i += 1;
    }
    assert(all.take(i as int) =~= all);
    out
}

/// Whether the pages end behind the one that just came: the total was reached, the pages have left
/// the window, or the page was the only or a short one.
pub open spec fn stops(
    total_pulled: nat,
    total_elements: Option<nat>,
    in_window: nat,
    page_kept: nat,
    page_n: nat,
    page_size: nat,
    mode: PagingMode,
) -> bool {
    ||| total_elements matches Some(t) && total_pulled >= t
    ||| page_n == page_size && page_kept == 0 && in_window > 0
    ||| mode == PagingMode::Single
    ||| page_n < page_size
}

/// Whether the pages end behind the one that just came.
pub fn should_stop(
    total_pulled: usize,
    total_elements: Option<usize>,
    in_window: usize,
    page_kept: usize,
    page_n: usize,
    page_size: usize,
    paging_mode: PagingMode,
) -> (r: bool)
    ensures
        r == stops(
            total_pulled as nat,
            match total_elements {
                Some(t) => Some(t as nat),
                None => None,
            },
            in_window as nat,
            page_kept as nat,
            page_n as nat,
            page_size as nat,
            paging_mode,
        ),
{
    match total_elements {
        Some(t) => {
            if total_pulled >= t {
                return true;
            }
        },
        None => {},
    }
    if page_n == page_size && page_kept == 0 && in_window > 0 {
        return true;
    }
    paging_mode == PagingMode::Single || page_n < page_size
}

// The loop over the pages

/// The most pages that are asked for.
pub const MAX_PAGES: u32 = 10000;

/// What has come of the pages so far.
#[derive(Debug)]
pub struct Pages {
    pub records: Vec<Json>,
    pub total_pulled: u128,
    pub total_elements: Option<u64>,
    /// The number of the page that is asked for next.
    pub page: u64,
    pub pages: u32,
}

#[verifier::ext_equal]
pub struct PagesV {
    pub records: Seq<JsonV>,
    pub total_pulled: nat,
    pub total_elements: Option<nat>,
    pub page: nat,
    pub pages: nat,
}

impl View for Pages {
    type V = PagesV;

    open spec fn view(&self) -> PagesV {
        PagesV {
            records: list_view(self.records@),
            total_pulled: self.total_pulled as nat,
            total_elements: match self.total_elements {
                Some(t) => Some(t as nat),
                None => None,
            },
            page: self.page as nat,
            pages: self.pages as nat,
        }
    }
}

/// What came of a page.
pub enum PageOutV {
    /// The pages go on.
    More,
    /// This was the last page.
    Done,
    /// The pages cannot be read.
    Failed(Seq<char>),
}

pub open spec fn too_many_text(pages: nat, param: Seq<char>) -> Seq<char> {
    dec(pages) + " pages and still going - the endpoint is likely ignoring paging.param \""@ + param
        + "\" AND omitting totalElements; check the spec"@
}

/// The pages with one more reply. The total is taken from the first one alone.
pub open spec fn pages_with(
    p: PagesV,
    resp: JsonV,
    root: Seq<char>,
    delivery: Seq<char>,
    from: i64,
    size: nat,
    mode: PagingMode,
    param: Seq<char>,
) -> (PagesV, PageOutV) {
    match records_of(resp, root) {
        Err(m) => (p, PageOutV::Failed(m)),
        Ok(batch) => {
            let kept = kept_of(batch, delivery, from);
            let total = if p.pages == 0 {
                match nat_in(member(resp, "totalElements"@)) {
                    Some(t) => Some(t as nat),
                    None => None,
                }
            } else {
                p.total_elements
            };
            let now = PagesV {
                records: p.records + kept,
                total_pulled: p.total_pulled + batch.len(),
                total_elements: total,
                page: p.page,
                pages: p.pages + 1,
            };
            if stops(
                now.total_pulled,
                total,
                now.records.len(),
                kept.len(),
                batch.len(),
                size,
                mode,
            ) {
                (now, PageOutV::Done)
            } else if now.pages >= MAX_PAGES {
                (now, PageOutV::Failed(too_many_text(now.pages, param)))
            } else {
                (PagesV { page: now.page + 1, ..now }, PageOutV::More)
            }
        },
    }
}

impl Pages {
    /// Nothing has come yet; `start` is the number of the first page.
    pub fn new(start: u32) -> (r: Pages)
        ensures
            r@ == (PagesV {
                records: Seq::empty(),
                total_pulled: 0,
                total_elements: None,
                page: start as nat,
                pages: 0,
            }),
            r.wf(),
    {
        let records: Vec<Json> = Vec::new();
        assert(list_view(records@) =~= Seq::empty());
        Pages { records, total_pulled: 0, total_elements: None, page: start as u64, pages: 0 }
    }

    /// The bounds within which the counts stay.
    pub open spec fn wf(self) -> bool {
        &&& self.pages < MAX_PAGES
        &&& self.page <= u32::MAX + self.pages
        &&& self.total_pulled <= self.pages * u64::MAX
    }

    /// Takes in the reply to the request of a page: whether this was the last one.
    pub fn step(&mut self, resp: &Json, spec: &SourceSpec, from_epoch: i64) -> (r: Result<
        bool,
        Error,
    >)
        requires
            old(self).wf(),
        ensures
            ({
                let (now, out) = pages_with(
                    old(self)@,
                    resp@,
                    spec@.map.root,
                    spec@.map.delivery,
                    from_epoch,
                    spec@.paging.size as nat,
                    spec@.paging.mode,
                    spec@.paging.param,
                );
                &&& final(self)@ == now
                &&& match out {
                    PageOutV::More => r matches Ok(done) && !done && final(self).wf(),
                    PageOutV::Done => r matches Ok(done) && done,
                    PageOutV::Failed(m) => r matches Err(Error::Config(t)) && t@ == m,
                }
            }),
    {
        let batch = match records(resp, spec.map.root.as_str()) {
            Ok(b) => b,
            Err(e) => {
                return Err(e);
            },
        };
        let n: usize = batch.len();
        assert(list_view(batch@).len() == n);
        if self.pages == 0 {
            self.total_elements = match resp.get("totalElements") {
                Some(t) => t.as_u64(),
                None => None,
            };
        }
        let mut kept = keep_records(batch, &spec.map, from_epoch);
        let page_kept: usize = kept.len();
        let ghost had = self.records@;
        let ghost more = kept@;
        self.records.append(&mut kept);
        self.total_pulled = self.total_pulled + n as u128;
        self.pages = self.pages + 1;
        proof {
            assert(list_view(self.records@) =~= list_view(had) + list_view(more));
            assert(list_view(more).len() == page_kept);
        }
        let reached = match self.total_elements {
            Some(t) => self.total_pulled >= t as u128,
            None => false,
        };
        if reached || should_stop(
            0,
            None,
            self.records.len(),
            page_kept,
            n,
            spec.paging.size as usize,
            spec.paging.mode,
        ) {
            return Ok(true);
        }
        if self.pages >= MAX_PAGES {
            return Err(
                Error::Config(
                    cat4(
                        decimal(self.pages as u64).as_str(),
                        " pages and still going - the endpoint is likely ignoring paging.param \"",
                        spec.paging.param.as_str(),
                        "\" AND omitting totalElements; check the spec",
                    ),
                ),
            );
        }
        self.page = self.page + 1;
        Ok(false)
    }
}

/// What is kept are records of the page, each of them in the window or without a time that reads.
pub proof fn law_kept_records_are_in_the_window(
    batch: Seq<JsonV>,
    delivery: Seq<char>,
    from: i64,
)
    ensures
        forall|i: int|
            0 <= i < kept_of(batch, delivery, from).len() ==> is_kept(
                #[trigger] kept_of(batch, delivery, from)[i],
                delivery,
                from,
            ) && batch.contains(kept_of(batch, delivery, from)[i]),
        kept_of(batch, delivery, from).len() <= batch.len(),
    decreases batch.len(),
{
    reveal(Seq::filter);
    if batch.len() > 0 {
        let rest = batch.drop_last();
        law_kept_records_are_in_the_window(rest, delivery, from);
        let before = kept_of(rest, delivery, from);
        let now = kept_of(batch, delivery, from);
        assert forall|i: int| 0 <= i < now.len() implies is_kept(
            #[trigger] now[i],
            delivery,
            from,
        ) && batch.contains(now[i]) by {
            if i < before.len() {
                assert(now[i] == before[i]);
                let k = choose|k: int| 0 <= k < rest.len() && rest[k] == before[i];
                assert(batch[k] == now[i]);
            } else {
                assert(batch[batch.len() - 1] == now[i]);
            }
        }
    }
}

} // verus!
