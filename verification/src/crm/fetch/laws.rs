//! What a request to a CRM carries.

use crate::crm::fetch::{
    elapsed_text, filled_pairs, newest_with_ads, paging_pairs, request_of, vars_of,
};
use crate::crm::source::{expanded, resolved, PagingMode, PagingSpecV, RequestSpecV};
use crate::fetch::shown_day;
use crate::provider::lookup;
use crate::strs::{dec, uppercase_of};
use vstd::prelude::*;

verus! {

/// A length of time is shown in milliseconds below a second, in seconds with a tenth below a
/// minute, and else in minutes and seconds of two digits.
pub proof fn law_elapsed_time_is_shown(minutes: nat, seconds: nat, ms: nat)
    requires
        seconds < 60,
        ms < 1000,
    ensures
        elapsed_text(ms) == dec(ms) + "ms"@,
        seconds > 0 ==> elapsed_text(seconds * 1000 + ms) == dec(seconds) + "."@ + dec(ms / 100)
            + "s"@,
        minutes > 0 && seconds >= 10 ==> elapsed_text((minutes * 60 + seconds) * 1000 + ms) == dec(
            minutes,
        ) + "m"@ + dec(seconds) + "s"@,
        minutes > 0 && seconds < 10 ==> elapsed_text((minutes * 60 + seconds) * 1000 + ms) == dec(
            minutes,
        ) + "m"@ + ("0"@ + dec(seconds)) + "s"@,
{
}

/// A numbered page is asked for by its number, and by its size where that has a name; a single one
/// is not.
pub proof fn law_pages_are_asked_for(
    p: PagingSpecV,
    vars: Seq<(Seq<char>, Seq<char>)>,
    n: Seq<char>,
)
    requires
        lookup(vars, "page"@) == Some(n),
    ensures
        p.mode == PagingMode::Single ==> paging_pairs(p, vars).len() == 0,
        p.mode == PagingMode::Page && p.size_param.len() == 0 ==> paging_pairs(p, vars) == seq![
            (p.param, n),
        ],
        p.mode == PagingMode::Page && p.size_param.len() > 0 ==> paging_pairs(p, vars) == seq![
            (p.param, n),
            (p.size_param, dec(p.size as nat)),
        ],
{
}

/// A request has its method in capital letters, its address and its body with the templates filled,
/// its own headers and query, the type of a body where it has one, and what paging adds.
pub proof fn law_request_is_filled(
    req: RequestSpecV,
    paging: PagingSpecV,
    vars: Seq<(Seq<char>, Seq<char>)>,
    headers: Seq<(Seq<char>, Seq<char>)>,
    query: Seq<(Seq<char>, Seq<char>)>,
)
    ensures
        ({
            let r = request_of(req, paging, vars, headers, query);
            &&& r.method == uppercase_of(req.method)
            &&& r.url == expanded(req.url, vars)
            &&& r.query == query + paging_pairs(paging, vars)
            &&& req.body is None ==> r.headers == headers && r.body is None
            &&& req.body matches Some(b) ==> r.body == Some(expanded(b, vars)) && r.headers
                == headers.push(("Content-Type"@, "application/json"@))
        }),
{
    let r = request_of(req, paging, vars, headers, query);
    if req.body is None {
        assert(r.headers =~= headers);
    } else {
        assert(r.headers =~= headers.push(("Content-Type"@, "application/json"@)));
    }
}

/// Pairs keep their names and their order; each value is resolved and filled. Where one does not
/// resolve, the message of the first such one comes out.
pub proof fn law_pairs_are_filled(
    pairs: Seq<(Seq<char>, Seq<char>)>,
    vars: Seq<(Seq<char>, Seq<char>)>,
    secrets: Seq<(Seq<char>, Seq<char>)>,
    env: Seq<(Seq<char>, Seq<char>)>,
)
    ensures
        match filled_pairs(pairs, vars, secrets, env) {
            Ok(v) => v.len() == pairs.len() && forall|i: int|
                0 <= i < v.len() ==> (#[trigger] v[i]).0 == pairs[i].0 && (resolved(
                    pairs[i].1,
                    secrets,
                    env,
                ) matches Ok(x) && v[i].1 == expanded(x, vars)),
            Err(m) => exists|k: int|
                0 <= k < pairs.len() && resolved((#[trigger] pairs[k]).1, secrets, env) == Err::<
                    Seq<char>,
                    Seq<char>,
                >(m) && forall|j: int|
                    0 <= j < k ==> resolved((#[trigger] pairs[j]).1, secrets, env) is Ok,
        },
    decreases pairs.len(),
{
    if pairs.len() > 0 {
        let rest = pairs.drop_last();
        law_pairs_are_filled(rest, vars, secrets, env);
        assert(forall|i: int| 0 <= i < rest.len() ==> #[trigger] rest[i] == pairs[i]);
        assert(pairs[pairs.len() - 1] == pairs.last());
        match filled_pairs(rest, vars, secrets, env) {
            Ok(v) => {
                match resolved(pairs.last().1, secrets, env) {
                    Ok(_) => {},
                    Err(m) => {
                        assert forall|j: int| 0 <= j < rest.len() implies resolved(
                            (#[trigger] pairs[j]).1,
                            secrets,
                            env,
                        ) is Ok by {
                            assert(v[j].0 == rest[j].0);
                            assert(rest[j] == pairs[j]);
                        }
                        assert(resolved(pairs[pairs.len() - 1].1, secrets, env) == Err::<
                            Seq<char>,
                            Seq<char>,
                        >(m));
                    },
                }
            },
            Err(m) => {
                let k = choose|k: int|
                    0 <= k < rest.len() && resolved((#[trigger] rest[k]).1, secrets, env) == Err::<
                        Seq<char>,
                        Seq<char>,
                    >(m) && forall|j: int|
                        0 <= j < k ==> resolved((#[trigger] rest[j]).1, secrets, env) is Ok;
                assert(resolved(pairs[k].1, secrets, env) == Err::<Seq<char>, Seq<char>>(m));
                assert forall|j: int| 0 <= j < k implies resolved(
                    (#[trigger] pairs[j]).1,
                    secrets,
                    env,
                ) is Ok by {
                    assert(rest[j] == pairs[j]);
                }
            },
        }
    }
}

/// The newest date with ads is the last one in order that has them.
pub proof fn law_newest_is_the_last_with_ads(dates: Seq<(Seq<char>, bool)>)
    ensures
        match newest_with_ads(dates) {
            Some(d) => exists|k: int|
                0 <= k < dates.len() && #[trigger] dates[k] == (d, true) && forall|j: int|
                    k < j < dates.len() ==> !(#[trigger] dates[j]).1,
            None => forall|k: int| 0 <= k < dates.len() ==> !(#[trigger] dates[k]).1,
        },
    decreases dates.len(),
{
    if dates.len() > 0 {
        let rest = dates.drop_last();
        law_newest_is_the_last_with_ads(rest);
        assert(forall|k: int| 0 <= k < rest.len() ==> #[trigger] rest[k] == dates[k]);
        assert(dates[dates.len() - 1] == dates.last());
        if dates.last().1 {
            assert(dates[dates.len() - 1] == (dates.last().0, true));
        } else {
            match newest_with_ads(rest) {
                Some(d) => {
                    let k = choose|k: int|
                        0 <= k < rest.len() && #[trigger] rest[k] == (d, true) && forall|j: int|
                            k < j < rest.len() ==> !(#[trigger] rest[j]).1;
                    assert(dates[k] == (d, true));
                    assert forall|j: int| k < j < dates.len() implies !(#[trigger] dates[j]).1 by {
                        if j < rest.len() {
                            assert(rest[j] == dates[j]);
                        }
                    }
                },
                None => {
                    assert forall|j: int| 0 <= j < dates.len() implies !(#[trigger] dates[j]).1 by {
                        if j < rest.len() {
                            assert(rest[j] == dates[j]);
                        }
                    }
                },
            }
        }
    }
}

/// The templates of a request stand for the first and the last day, the page and its size; the days
/// go up to today, and no days are one.
pub proof fn law_templates_stand_for_the_days(today: int, days: nat, page: nat, size: nat)
    ensures
        vars_of(today, 0, page, size) == vars_of(today, 1, page, size),
        vars_of(today, days, page, size) matches Some(v) ==> {
            &&& lookup(v, "to_date"@) == shown_day(today)
            &&& days > 0 ==> lookup(v, "from_date"@) == shown_day(today - days)
            &&& lookup(v, "page"@) == Some(dec(page))
            &&& lookup(v, "page_size"@) == Some(dec(size))
        },
{
    match vars_of(today, days, page, size) {
        Some(v) => {
            reveal_strlit("from_date");
            reveal_strlit("to_date");
            reveal_strlit("page_size");
            reveal_strlit("page");
            assert("from_date"@.len() == 9 && "to_date"@.len() == 7 && "page_size"@.len() == 9
                && "page"@.len() == 4);
            assert("from_date"@[0] == 'f' && "page_size"@[0] == 'p');
            reveal_with_fuel(lookup, 5);
            let v1 = v.drop_first();
            let v2 = v1.drop_first();
            let v3 = v2.drop_first();
            assert(v1[0] == v[1] && v2[0] == v[2] && v3[0] == v[3]);
        },
        None => {},
    }
}

} // verus!
