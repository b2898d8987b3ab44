//! What the check of an export finds, and when.

use crate::crm::check::{
    check_of, deliveries, entries_text, is_known, is_low, join_counts_of, lacks_ad, lacks_stage,
    missing_errors, missing_in, non_objects, ranked, ranked_with, sampled, stage_in, stage_warnings,
    tallied, unknown_stages, with_join, CheckReportV,
};
use crate::crm::{ad_id_in, canonical_stages, delivery_in, tickets_in};
use crate::json::JsonV;
use crate::strs::{dec, trimmed};
use crate::window::laws::{ad_named, says};
use vstd::prelude::*;

verus! {

// Fields

/// Whether a ticket names no ad: it has no id, or only white space for one.
pub open spec fn names_no_ad(t: JsonV) -> bool {
    trimmed(ad_named(t)).len() == 0
}

/// Whether a ticket has no stage but white space.
pub open spec fn has_no_stage(t: JsonV) -> bool {
    trimmed(says(t, "stage"@)).len() == 0
}

proof fn lemma_missing(tickets: Seq<JsonV>, n: int)
    requires
        0 <= n <= tickets.len(),
    ensures
        ({
            let m = missing_in(tickets, n);
            let seen = tickets.take(n);
            &&& m.no_ad == seen.filter(|t: JsonV| names_no_ad(t)).len()
            &&& m.no_stage == seen.filter(|t: JsonV| has_no_stage(t)).len()
            &&& m.no_delivery == seen.filter(|t: JsonV| delivery_in(t) is None).len()
        }),
    decreases n,
{
    reveal(Seq::filter);
    if n > 0 {
        lemma_missing(tickets, n - 1);
        assert(tickets.take(n).drop_last() =~= tickets.take(n - 1));
        let t = tickets[n - 1];
        assert(trimmed(Seq::<char>::empty()).len() == 0);
        assert(lacks_ad(t) <==> names_no_ad(t));
        assert(lacks_stage(t) <==> has_no_stage(t));
    } else {
        assert(tickets.take(0) =~= Seq::empty());
    }
}

/// Fields are said to be missing just where a ticket names no ad, has no stage, or no time of
/// delivery that reads. The first line tells how many tickets lack each of them.
pub proof fn law_missing_fields_are_counted(tickets: Seq<JsonV>)
    ensures
        ({
            let no_ad = tickets.filter(|t: JsonV| names_no_ad(t)).len();
            let no_stage = tickets.filter(|t: JsonV| has_no_stage(t)).len();
            let no_delivery = tickets.filter(|t: JsonV| delivery_in(t) is None).len();
            let e = missing_errors(tickets);
            &&& e.len() > 0 <==> no_ad > 0 || no_stage > 0 || no_delivery > 0
            &&& e.len() > 0 ==> e[0] == "required fields missing: ad_id on "@ + dec(no_ad)
                + " ticket(s), stage on "@ + dec(no_stage) + ", delivery on "@ + dec(no_delivery)
        }),
{
    lemma_missing(tickets, tickets.len() as int);
    assert(tickets.take(tickets.len() as int) =~= tickets);
}

/// Of messages of one sort the first five are kept, and one line stands for all others.
pub proof fn law_five_samples_are_kept(list: Seq<Seq<char>>, msg: Seq<char>)
    ensures
        list.len() <= 4 ==> sampled(list, msg) == list.push(msg),
        list.len() == 5 ==> sampled(list, msg) == list.push(
            "... more of the same (fix the above and re-run)"@,
        ),
        list.len() >= 6 ==> sampled(list, msg) == list,
{
}

// Stages

/// Whether the stage of a ticket is none of the six of the funnel and none of the workspace's own.
pub open spec fn is_unknown(t: JsonV, own: Seq<Seq<char>>) -> bool {
    let s = says(t, "stage"@);
    &&& trimmed(s).len() > 0
    &&& s != "Lost"@ && s != "NonContactable"@ && s != "Contactable"@ && s != "Visit"@ && s
        != "Revisit"@ && s != "Booking"@
    &&& !own.contains(s)
}

proof fn lemma_known(s: Seq<char>, own: Seq<Seq<char>>)
    ensures
        is_known(s, own) <==> s == "Lost"@ || s == "NonContactable"@ || s == "Contactable"@ || s
            == "Visit"@ || s == "Revisit"@ || s == "Booking"@ || own.contains(s),
{
    let c = canonical_stages();
    assert(c[0] == "Lost"@ && c[1] == "NonContactable"@ && c[2] == "Contactable"@ && c[3]
        == "Visit"@ && c[4] == "Revisit"@ && c[5] == "Booking"@);
    if c.contains(s) {
        let k = choose|k: int| 0 <= k < c.len() && c[k] == s;
        assert(c[k] == s);
    }
}

/// How often a name is counted in a tally.
pub open spec fn counted(t: Seq<(Seq<char>, nat)>, name: Seq<char>) -> nat
    decreases t.len(),
{
    if t.len() == 0 {
        0
    } else if t[0].0 == name {
        t[0].1
    } else {
        counted(t.drop_first(), name)
    }
}

/// One more of a name adds one to its count, and to no other.
pub proof fn law_tally_counts_one_more(t: Seq<(Seq<char>, nat)>, name: Seq<char>, other: Seq<char>)
    ensures
        counted(tallied(t, name), name) == counted(t, name) + 1,
        other != name ==> counted(tallied(t, name), other) == counted(t, other),
    decreases t.len(),
{
    let now = tallied(t, name);
    if t.len() > 0 {
        if t[0].0 == name {
            assert(now.drop_first() =~= t.drop_first());
        } else {
            law_tally_counts_one_more(t.drop_first(), name, other);
            assert(now.drop_first() =~= tallied(t.drop_first(), name));
        }
    } else {
        assert(now.drop_first() =~= t);
    }
}

/// Every stage that is not known is counted as often as tickets are in it, and no other stage is
/// counted.
pub proof fn law_unknown_stages_are_counted(
    tickets: Seq<JsonV>,
    own: Seq<Seq<char>>,
    stage: Seq<char>,
)
    ensures
        counted(unknown_stages(tickets, own), stage) == tickets.filter(
            |t: JsonV| is_unknown(t, own) && says(t, "stage"@) == stage,
        ).len(),
        unknown_stages(tickets, own).len() > 0 <==> tickets.filter(
            |t: JsonV| is_unknown(t, own),
        ).len() > 0,
    decreases tickets.len(),
{
    reveal(Seq::filter);
    if tickets.len() > 0 {
        let before = unknown_stages(tickets.drop_last(), own);
        let t = tickets.last();
        law_unknown_stages_are_counted(tickets.drop_last(), own, stage);
        lemma_known(stage_in(t), own);
        assert(stage_in(t) == says(t, "stage"@));
        law_tally_counts_one_more(before, stage_in(t), stage);
    }
}

/// There is a warning on stages just where a ticket is in one that is not known.
pub proof fn law_unknown_stages_are_warned_of(tickets: Seq<JsonV>, own: Seq<Seq<char>>)
    ensures
        stage_warnings(tickets, own).len() <= 1,
        stage_warnings(tickets, own).len() == 1 <==> exists|i: int|
            0 <= i < tickets.len() && is_unknown(#[trigger] tickets[i], own),
{
    let p = |t: JsonV| is_unknown(t, own);
    law_unknown_stages_are_counted(tickets, own, Seq::empty());
    broadcast use vstd::seq_lib::group_filter_ensures;

    if exists|i: int| 0 <= i < tickets.len() && is_unknown(#[trigger] tickets[i], own) {
        let i = choose|i: int| 0 <= i < tickets.len() && is_unknown(#[trigger] tickets[i], own);
        assert(p(tickets[i]));
        assert(tickets.filter(p).contains(tickets[i]));
    }
    if tickets.filter(p).len() > 0 {
        let t = tickets.filter(p)[0];
        assert(p(t));
        assert(tickets.filter(p).contains(t));
        tickets.lemma_filter_contains_rev(p, t);
        let i = choose|i: int| 0 <= i < tickets.len() && tickets[i] == t;
        assert(is_unknown(tickets[i], own));
    }
}

// Joining

/// The tickets that have an id of an ad are counted, and those whose id is known.
pub proof fn law_joins_are_counted(tickets: Seq<JsonV>, ids: Seq<Seq<char>>)
    ensures
        ({
            let c = join_counts_of(tickets, ids);
            &&& c.0 == tickets.filter(|t: JsonV| ad_id_in(t) is Some).len()
            &&& c.1 == tickets.filter(
                |t: JsonV| ad_id_in(t) matches Some(id) && ids.contains(id),
            ).len()
            &&& c.1 <= c.0
        }),
    decreases tickets.len(),
{
    reveal(Seq::filter);
    if tickets.len() > 0 {
        law_joins_are_counted(tickets.drop_last(), ids);
    }
}

/// A share of four fifths is not low, and one below is.
pub proof fn law_low_is_below_four_fifths(k: nat)
    requires
        k > 0,
    ensures
        !is_low(5 * k, 4 * k),
        is_low(5 * k, (4 * k - 1) as nat),
        !is_low(0, 0),
{
}

/// What joining finds is one more line: an error where no ticket joins, a warning where fewer than
/// four fifths do, and else a piece of information; one is told too where there is nothing to join.
pub proof fn law_join_tells_one_line(
    r: CheckReportV,
    tickets: Seq<JsonV>,
    date: Seq<char>,
    ids: Seq<Seq<char>>,
    share: Seq<char>,
)
    ensures
        ({
            let now = with_join(r, tickets, date, ids, share);
            let with_id = tickets.filter(|t: JsonV| ad_id_in(t) is Some).len();
            let joined = tickets.filter(
                |t: JsonV| ad_id_in(t) matches Some(id) && ids.contains(id),
            ).len();
            &&& now.tickets == r.tickets
            &&& ids.len() == 0 ==> now.errors == r.errors && now.warnings == r.warnings
                && now.info.len() == r.info.len() + 1
            &&& ids.len() > 0 && joined == 0 ==> now.errors.len() == r.errors.len() + 1
                && now.warnings == r.warnings && now.info == r.info
            &&& ids.len() > 0 && joined > 0 && joined * 5 < with_id * 4 ==> now.errors == r.errors
                && now.warnings.len() == r.warnings.len() + 1 && now.info == r.info
            &&& ids.len() > 0 && joined > 0 && joined * 5 >= with_id * 4 ==> now.errors == r.errors
                && now.warnings == r.warnings && now.info.last() == "ad_id join vs snapshot "@ + date
                + ": "@ + dec(joined) + "/"@ + dec(with_id) + " tickets match a known Meta ad ("@
                + share + "%)"@
        }),
{
    law_joins_are_counted(tickets, ids);
}

// The whole check

/// The check counts the tickets. It tells an error where one lacks a field, whatever else it finds,
/// a warning where a stage is not known, and a warning where there are no tickets.
pub proof fn law_check_tells_what_is_wrong(
    crm: JsonV,
    own: Seq<Seq<char>>,
    snap: Option<(Seq<char>, Seq<Seq<char>>)>,
    share: Seq<char>,
)
    requires
        crm is List || crm is Object,
    ensures
        ({
            let r = check_of(crm, own, snap, share);
            let tickets = tickets_in(crm);
            &&& r.tickets == tickets.len()
            &&& tickets.len() == 0 ==> r.warnings == seq!["0 tickets - empty export"@]
            &&& (exists|i: int|
                0 <= i < tickets.len() && (names_no_ad(#[trigger] tickets[i]) || has_no_stage(
                    tickets[i],
                ) || delivery_in(tickets[i]) is None)) ==> r.errors.len() > 0
            &&& (exists|i: int|
                0 <= i < tickets.len() && is_unknown(#[trigger] tickets[i], own))
                ==> r.warnings.len() > 0
        }),
{
    let tickets = tickets_in(crm);
    law_missing_fields_are_counted(tickets);
    law_unknown_stages_are_warned_of(tickets, own);
    broadcast use vstd::seq_lib::group_filter_ensures;

    let a = |t: JsonV| names_no_ad(t);
    let s = |t: JsonV| has_no_stage(t);
    let d = |t: JsonV| delivery_in(t) is None;
    if exists|i: int|
        0 <= i < tickets.len() && (names_no_ad(#[trigger] tickets[i]) || has_no_stage(tickets[i])
            || delivery_in(tickets[i]) is None) {
        let i = choose|i: int|
            0 <= i < tickets.len() && (names_no_ad(#[trigger] tickets[i]) || has_no_stage(
                tickets[i],
            ) || delivery_in(tickets[i]) is None);
        if a(tickets[i]) {
            assert(tickets.filter(a).contains(tickets[i]));
        } else if s(tickets[i]) {
            assert(tickets.filter(s).contains(tickets[i]));
        } else {
            assert(d(tickets[i]));
            assert(tickets.filter(d).contains(tickets[i]));
        }
        assert(missing_errors(tickets).len() > 0);
    }
}

/// The times of delivery are those of the tickets that have one that reads, in their order.
pub proof fn law_deliveries_are_those_that_read(tickets: Seq<JsonV>)
    ensures
        deliveries(tickets) == tickets.filter(|t: JsonV| delivery_in(t) is Some).map_values(
            |t: JsonV| delivery_in(t)->0,
        ),
    decreases tickets.len(),
{
    reveal(Seq::filter);
    let reads = |t: JsonV| delivery_in(t) is Some;
    let at = |t: JsonV| delivery_in(t)->0;
    if tickets.len() > 0 {
        law_deliveries_are_those_that_read(tickets.drop_last());
        let before = tickets.drop_last().filter(reads);
        if reads(tickets.last()) {
            assert(before.push(tickets.last()).map_values(at) =~= before.map_values(at).push(
                at(tickets.last()),
            ));
        }
    } else {
        assert(tickets.filter(reads).map_values(at) =~= Seq::empty());
    }
}

// How it is told

/// A tally is told from the one that counts most on: none comes before one that counts more, and
/// every entry is there.
pub proof fn law_tally_is_told_from_the_most_on(t: Seq<(Seq<char>, nat)>)
    ensures
        forall|i: int, j: int|
            0 <= i < j < ranked(t).len() ==> (#[trigger] ranked(t)[i]).1 >= (#[trigger] ranked(
                t,
            )[j]).1,
        ranked(t).len() == t.len(),
        forall|e: (Seq<char>, nat)| #[trigger] ranked(t).contains(e) <==> t.contains(e),
    decreases t.len(),
{
    if t.len() > 0 {
        let rest = t.drop_last();
        law_tally_is_told_from_the_most_on(rest);
        lemma_put_in(ranked(rest), t.last());
        assert forall|e: (Seq<char>, nat)| #[trigger] ranked(t).contains(e) <==> t.contains(e) by {
            if t.contains(e) {
                let k = choose|k: int| 0 <= k < t.len() && t[k] == e;
                if k < rest.len() {
                    assert(rest[k] == e);
                    assert(rest.contains(e));
                    assert(ranked(rest).contains(e));
                }
            }
            if rest.contains(e) {
                let k = choose|k: int| 0 <= k < rest.len() && rest[k] == e;
                assert(t[k] == e);
            }
            assert(t[t.len() - 1] == t.last());
            if ranked(rest).contains(e) {
                assert(rest.contains(e));
            }
        }
    }
}

proof fn lemma_put_in(t: Seq<(Seq<char>, nat)>, e: (Seq<char>, nat))
    requires
        forall|i: int, j: int|
            0 <= i < j < t.len() ==> (#[trigger] t[i]).1 >= (#[trigger] t[j]).1,
    ensures
        ({
            let r = ranked_with(t, e);
            &&& r.len() == t.len() + 1
            &&& forall|i: int, j: int|
                0 <= i < j < r.len() ==> (#[trigger] r[i]).1 >= (#[trigger] r[j]).1
            &&& forall|x: (Seq<char>, nat)| #[trigger] r.contains(x) <==> t.contains(x) || x == e
        }),
    decreases t.len(),
{
    let r = ranked_with(t, e);
    if t.len() == 0 || t.last().1 >= e.1 {
        assert forall|i: int, j: int| 0 <= i < j < r.len() implies (#[trigger] r[i]).1 >= (
        #[trigger] r[j]).1 by {
            if j == t.len() {
                assert(t[i].1 >= t[t.len() - 1].1);
            } else {
                assert(t[i].1 >= t[j].1);
            }
        }
        assert forall|x: (Seq<char>, nat)| #[trigger] r.contains(x) <==> t.contains(x) || x == e by {
            if t.contains(x) {
                let k = choose|k: int| 0 <= k < t.len() && t[k] == x;
                assert(r[k] == x);
            }
            assert(r[t.len() as int] == e);
        }
    } else {
        let rest = t.drop_last();
        let last = t.last();
        let q = ranked_with(rest, e);
        assert forall|i: int, j: int| 0 <= i < j < rest.len() implies (#[trigger] rest[i]).1 >= (
        #[trigger] rest[j]).1 by {
            assert(t[i].1 >= t[j].1);
        }
        lemma_put_in(rest, e);
        assert forall|i: int, j: int| 0 <= i < j < r.len() implies (#[trigger] r[i]).1 >= (
        #[trigger] r[j]).1 by {
            assert(r[i] == q[i]);
            if j < q.len() {
                assert(r[j] == q[j]);
            } else {
                assert(q.contains(q[i]));
                if rest.contains(q[i]) {
                    let k = choose|k: int| 0 <= k < rest.len() && rest[k] == q[i];
                    assert(t[k].1 >= t[t.len() - 1].1);
                }
            }
        }
        assert forall|x: (Seq<char>, nat)| #[trigger] r.contains(x) <==> t.contains(x) || x == e by {
            if r.contains(x) {
                let k = choose|k: int| 0 <= k < r.len() && r[k] == x;
                if k < q.len() {
                    assert(q[k] == x);
                    assert(q.contains(x));
                    if rest.contains(x) {
                        let m = choose|m: int| 0 <= m < rest.len() && rest[m] == x;
                        assert(t[m] == x);
                    }
                } else {
                    assert(t[t.len() - 1] == x);
                }
            }
            if t.contains(x) {
                let k = choose|k: int| 0 <= k < t.len() && t[k] == x;
                if k < rest.len() {
                    assert(rest[k] == x);
                    assert(rest.contains(x));
                    assert(q.contains(x));
                    let m = choose|m: int| 0 <= m < q.len() && q[m] == x;
                    assert(r[m] == x);
                } else {
                    assert(r[q.len() as int] == x);
                }
            }
            if x == e {
                assert(q.contains(e));
                let m = choose|m: int| 0 <= m < q.len() && q[m] == e;
                assert(r[m] == e);
            }
        }
    }
}

/// The entries of a tally are told with their counts, the first five of them.
pub proof fn law_five_entries_are_told(t: Seq<(Seq<char>, nat)>, e: (Seq<char>, nat))
    ensures
        entries_text(Seq::empty()).len() == 0,
        entries_text(seq![e]) == "\""@ + e.0 + "\" x"@ + dec(e.1),
        t.len() >= 5 ==> entries_text(t) == entries_text(t.take(5)),
{
    assert(seq![e].take(1) =~= seq![e]);
    if t.len() >= 5 {
        assert(t.take(5).take(5) =~= t.take(5));
    }
    assert(Seq::<(Seq<char>, nat)>::empty().take(0) =~= Seq::empty());
}

/// A list in which all elements are objects is told nothing of; otherwise each that is none is told
/// with its place.
pub proof fn law_elements_that_are_no_objects_are_told(
    label: Seq<char>,
    items: Seq<JsonV>,
    n: int,
)
    requires
        0 <= n <= items.len(),
    ensures
        (forall|i: int| 0 <= i < n ==> (#[trigger] items[i]) is Object) <==> non_objects(
            Seq::empty(),
            label,
            items,
            n,
        ).len() == 0,
        n > 0 && !(items[n - 1] is Object) && non_objects(Seq::empty(), label, items, n - 1).len() < 5
            ==> non_objects(Seq::empty(), label, items, n).last() == label + dec((n - 1) as nat)
            + "] is not a JSON object"@,
    decreases n,
{
    if n > 0 {
        law_elements_that_are_no_objects_are_told(label, items, n - 1);
    }
}

} // verus!
