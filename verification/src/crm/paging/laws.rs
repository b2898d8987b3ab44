//! How the pages of an export go on, and what of them stays.

use crate::crm::epoch_in;
use crate::crm::paging::{is_kept, pages_with, stops, PagesV};
use crate::crm::source::{path_in, records_of, PagingMode};
use crate::json::{member, JsonV};
use vstd::prelude::*;

verus! {

/// A record stays where its time is in the window or after it, and where it has none that reads;
/// only one whose time is before the window goes.
pub proof fn law_only_older_records_go(rec: JsonV, delivery: Seq<char>, from: i64)
    ensures
        !is_kept(rec, delivery, from) <==> (path_in(rec, delivery) matches Some(d) && epoch_in(
            d,
        ) matches Some(e) && e < from),
{
}

/// The pages end where the total was reached, where only one page is asked for, behind a page that
/// is not full, and behind a full page of which nothing stays after something did.
pub proof fn law_pages_end(
    pulled: nat,
    total: Option<nat>,
    in_window: nat,
    kept: nat,
    n: nat,
    size: nat,
    mode: PagingMode,
)
    ensures
        (total matches Some(t) && t <= pulled) ==> stops(
            pulled,
            total,
            in_window,
            kept,
            n,
            size,
            mode,
        ),
        stops(pulled, total, in_window, kept, n, size, PagingMode::Single),
        n < size ==> stops(pulled, total, in_window, kept, n, size, mode),
        kept == 0 && in_window > 0 ==> stops(pulled, total, in_window, kept, size, size, mode),
{
}

/// A full page is followed by another where more than one page is asked for, the total is unknown
/// or not reached, and something of the page stays, or nothing stayed so far.
pub proof fn law_full_pages_go_on(
    pulled: nat,
    total: Option<nat>,
    in_window: nat,
    kept: nat,
    size: nat,
    mode: PagingMode,
)
    requires
        mode != PagingMode::Single,
        total matches Some(t) ==> pulled < t,
        kept > 0 || in_window == 0,
    ensures
        !stops(pulled, total, in_window, kept, size, size, mode),
{
}

/// A page adds what stays of its records behind those that are there, counts all of them, and asks
/// for the page behind it where the pages go on. The total is the one that the first page names. A
/// reply without records changes nothing.
pub proof fn law_page_adds_its_records(
    p: PagesV,
    resp: JsonV,
    root: Seq<char>,
    delivery: Seq<char>,
    from: i64,
    size: nat,
    mode: PagingMode,
    param: Seq<char>,
)
    ensures
        ({
            let (now, out) = pages_with(p, resp, root, delivery, from, size, mode, param);
            &&& records_of(resp, root) is Err ==> now == p && out is Failed
            &&& records_of(resp, root) matches Ok(batch) ==> {
                &&& now.records == p.records + batch.filter(
                    |rec: JsonV| is_kept(rec, delivery, from),
                )
                &&& now.total_pulled == p.total_pulled + batch.len()
                &&& now.pages == p.pages + 1
                &&& p.pages > 0 ==> now.total_elements == p.total_elements
                &&& p.pages == 0 ==> (now.total_elements is Some <==> (member(
                    resp,
                    "totalElements"@,
                ) matches Some(JsonV::Number(t)) && t.unsigned is Some))
                &&& p.pages == 0 ==> (now.total_elements matches Some(n) ==> (member(
                    resp,
                    "totalElements"@,
                ) matches Some(JsonV::Number(t)) && t.unsigned == Some(n as u64)))
                &&& out is More ==> now.page == p.page + 1 && now.pages < 10000
                &&& out !is More ==> now.page == p.page
            }
        }),
{
}

} // verus!
