//! Whether an export of a CRM conforms, told in errors, warnings and notes.

use crate::crm::{
    ad_id_in, canonical_stages, delivery_epoch, delivery_in, is_object, refs_view, tickets_in,
    tickets_of, ticket_ad_id, ticket_stage,
};
use crate::dates::{epoch_day_text, epoch_day_text_of};
use crate::json::{
    lemma_list_view, list_in, list_view, member, pairs_view, text_or_empty, Json, JsonV,
};
use crate::snapshot::Snapshot;
use crate::strs::{
    cat2, cat3, cat4, cat5, cat6, cat7, dec, dec_int, decimal_int, decimal_len, join, joined,
    lemma_views_push, same, trim, trimmed, views,
};
use vstd::prelude::*;

pub mod laws;
use vstd::string::StringExecFns;

verus! {

/// What a check found: only errors make it fail.
#[derive(Debug)]
pub struct CheckReport {
    pub tickets: usize,
    pub errors: Vec<String>,
    pub warnings: Vec<String>,
    pub info: Vec<String>,
}

#[verifier::ext_equal]
pub struct CheckReportV {
    pub tickets: nat,
    pub errors: Seq<Seq<char>>,
    pub warnings: Seq<Seq<char>>,
    pub info: Seq<Seq<char>>,
}

impl View for CheckReport {
    type V = CheckReportV;

    open spec fn view(&self) -> CheckReportV {
        CheckReportV {
            tickets: self.tickets as nat,
            errors: views(self.errors@),
            warnings: views(self.warnings@),
            info: views(self.info@),
        }
    }
}

impl CheckReport {
    pub fn passed(&self) -> (r: bool)
        ensures
            r == (self@.errors.len() == 0),
    {
        self.errors.len() == 0
    }
}

// Samples

/// How many messages of one sort are kept before the rest is summed up.
pub const SAMPLE_CAP: usize = 5;

/// A list of messages with one more: the first five are kept, a note stands for all others.
pub open spec fn sampled(list: Seq<Seq<char>>, msg: Seq<char>) -> Seq<Seq<char>> {
    if list.len() < SAMPLE_CAP {
        list.push(msg)
    } else if list.len() == SAMPLE_CAP {
        list.push("... more of the same (fix the above and re-run)"@)
    } else {
        list
    }
}

/// A list that is kept by sampling never grows beyond the five messages and the note.
pub proof fn law_samples_are_capped(list: Seq<Seq<char>>, msg: Seq<char>)
    requires
        list.len() <= SAMPLE_CAP + 1,
    ensures
        sampled(list, msg).len() <= SAMPLE_CAP + 1,
        list.len() <= sampled(list, msg).len(),
        sampled(list, msg).take(list.len() as int) == list,
{
    assert(sampled(list, msg).take(list.len() as int) =~= list);
}

fn push_line(list: &mut Vec<String>, msg: String)
    ensures
        views(final(list)@) == views(old(list)@).push(msg@),
{
    proof {
        lemma_views_push(list@, msg);
    }
    list.push(msg);
}

pub fn push_sampled(list: &mut Vec<String>, msg: String)
    ensures
        views(final(list)@) == sampled(views(old(list)@), msg@),
{
    assert(views(list@).len() == list@.len());
    if list.len() < SAMPLE_CAP {
        push_line(list, msg);
    } else if list.len() == SAMPLE_CAP {
        push_line(list, "... more of the same (fix the above and re-run)".to_owned());
    }
}

// The shape

/// The errors for the elements `0..n` of a list that are no objects; `label` stands before the
/// index.
pub open spec fn non_objects(
    errs: Seq<Seq<char>>,
    label: Seq<char>,
    items: Seq<JsonV>,
    n: int,
) -> Seq<Seq<char>>
    decreases n,
{
    if n <= 0 {
        errs
    } else {
        let before = non_objects(errs, label, items, n - 1);
        if items[n - 1] is Object {
            before
        } else {
            sampled(before, label + dec((n - 1) as nat) + "] is not a JSON object"@)
        }
    }
}

/// The errors for the campaigns `0..n` of a map.
pub open spec fn map_errors(pairs: Seq<(Seq<char>, JsonV)>, n: int) -> Seq<Seq<char>>
    decreases n,
{
    if n <= 0 {
        Seq::empty()
    } else {
        let before = map_errors(pairs, n - 1);
        let id = pairs[n - 1].0;
        match list_in(member(pairs[n - 1].1, "tickets"@)) {
            None => sampled(before, "legacy map entry \""@ + id + "\" has no tickets array"@),
            Some(items) => non_objects(
                before,
                "\""@ + id + "\".tickets["@,
                items,
                items.len() as int,
            ),
        }
    }
}

/// The errors in the shape of an export.
pub open spec fn shape_errors(crm: JsonV) -> Seq<Seq<char>> {
    match crm {
        JsonV::List(items) => non_objects(
            Seq::empty(),
            "ticket["@,
            items,
            items.len() as int,
        ),
        JsonV::Object(pairs) => map_errors(pairs, pairs.len() as int),
        _ => seq![
            "crm.json must be a JSON array of ticket objects (see moneyball crm contract)"@,
        ],
    }
}

pub open spec fn shape_info(crm: JsonV) -> Seq<Seq<char>> {
    if crm is Object {
        seq!["legacy campaign-map shape (flat array preferred)"@]
    } else {
        Seq::empty()
    }
}

fn list_shape(errs: &mut Vec<String>, label: &str, items: &Vec<Json>)
    ensures
        views(final(errs)@) == non_objects(
            views(old(errs)@),
            label@,
            list_view(items@),
            items@.len() as int,
        ),
{
    let ghost start = views(errs@);
    let ghost all = list_view(items@);
    let mut i: usize = 0;
    while i < items.len()
        invariant
            i <= items@.len(),
            all == list_view(items@),
            views(errs@) == non_objects(start, label@, all, i as int),
        decreases items.len() - i,
    {
        assert(all[i as int] == items@[i as int]@);
        if !is_object(&items[i]) {
            push_sampled(
                errs,
                cat3(label, decimal_len(i).as_str(), "] is not a JSON object"),
            );
        }
        i += 1;
    }
}

fn map_shape(errs: &mut Vec<String>, pairs: &Vec<(String, Json)>)
    requires
        views(old(errs)@) == Seq::<Seq<char>>::empty(),
    ensures
        views(final(errs)@) == map_errors(pairs_view(pairs@), pairs@.len() as int),
{
    let ghost all = pairs_view(pairs@);
    let mut i: usize = 0;
    while i < pairs.len()
        invariant
            i <= pairs@.len(),
            all == pairs_view(pairs@),
            views(errs@) == map_errors(all, i as int),
        decreases pairs.len() - i,
    {
        assert(all[i as int] == (pairs@[i as int].0@, pairs@[i as int].1@));
        let id = pairs[i].0.as_str();
        let items = match pairs[i].1.get("tickets") {
            Some(l) => l.as_array(),
            None => None,
        };
        match items {
            None => {
                push_sampled(errs, cat3("legacy map entry \"", id, "\" has no tickets array"));
            },
            Some(items) => {
                assert(list_view(items@).len() == items@.len());
                list_shape(errs, cat3("\"", id, "\".tickets[").as_str(), items);
            },
        }
        i += 1;
    }
}

// Required fields

/// How many tickets lack a field, and samples of them.
#[verifier::ext_equal]
pub struct MissingV {
    pub no_ad: nat,
    pub no_stage: nat,
    pub no_delivery: nat,
    pub samples: Seq<Seq<char>>,
}

pub open spec fn lacks_ad(t: JsonV) -> bool {
    match ad_id_in(t) {
        Some(s) => trimmed(s).len() == 0,
        None => true,
    }
}

pub open spec fn stage_in(t: JsonV) -> Seq<char> {
    text_or_empty(member(t, "stage"@))
}

pub open spec fn lacks_stage(t: JsonV) -> bool {
    trimmed(stage_in(t)).len() == 0
}

/// One more ticket, the one at `i`.
pub open spec fn missing_with(m: MissingV, t: JsonV, i: nat) -> MissingV {
    let at = "ticket["@ + dec(i);
    let s1 = if lacks_ad(t) {
        sampled(m.samples, at + "]: ad_id missing or empty"@)
    } else {
        m.samples
    };
    let s2 = if lacks_stage(t) {
        sampled(s1, at + "]: stage missing or empty"@)
    } else {
        s1
    };
    let s3 = if delivery_in(t) is None {
        sampled(
            s2,
            at + "]: delivery missing or unparseable (epoch seconds or ISO-8601)"@,
        )
    } else {
        s2
    };
    MissingV {
        no_ad: m.no_ad + if lacks_ad(t) {
            1nat
        } else {
            0
        },
        no_stage: m.no_stage + if lacks_stage(t) {
            1nat
        } else {
            0
        },
        no_delivery: m.no_delivery + if delivery_in(t) is None {
            1nat
        } else {
            0
        },
        samples: s3,
    }
}

/// What the tickets `0..n` lack.
pub open spec fn missing_in(tickets: Seq<JsonV>, n: int) -> MissingV
    decreases n,
{
    if n <= 0 {
        MissingV { no_ad: 0, no_stage: 0, no_delivery: 0, samples: Seq::empty() }
    } else {
        missing_with(missing_in(tickets, n - 1), tickets[n - 1], (n - 1) as nat)
    }
}

/// The errors for fields that are missing: a count, and then samples.
pub open spec fn missing_errors(tickets: Seq<JsonV>) -> Seq<Seq<char>> {
    let m = missing_in(tickets, tickets.len() as int);
    if m.no_ad + m.no_stage + m.no_delivery > 0 {
        seq![
            "required fields missing: ad_id on "@ + dec(m.no_ad) + " ticket(s), stage on "@ + dec(
                m.no_stage,
            ) + ", delivery on "@ + dec(m.no_delivery),
        ] + m.samples
    } else {
        Seq::empty()
    }
}

fn append_lines(list: &mut Vec<String>, more: Vec<String>)
    ensures
        views(final(list)@) == views(old(list)@) + views(more@),
{
    let mut more = more;
    let ghost a = list@;
    let ghost b = more@;
    list.append(&mut more);
    assert(views(list@) =~= views(a) + views(b));
}

fn check_required_fields(tickets: &Vec<&Json>, errors: &mut Vec<String>)
    ensures
        views(final(errors)@) == views(old(errors)@) + missing_errors(refs_view(tickets@)),
{
    let ghost all = refs_view(tickets@);
    let mut no_ad: usize = 0;
    let mut no_stage: usize = 0;
    let mut no_delivery: usize = 0;
    let mut samples: Vec<String> = Vec::new();
    let mut i: usize = 0;
    assert(views(samples@) =~= Seq::empty());
    while i < tickets.len()
        invariant
            i <= tickets@.len(),
            all == refs_view(tickets@),
            no_ad <= i,
            no_stage <= i,
            no_delivery <= i,
            missing_in(all, i as int) == (MissingV {
                no_ad: no_ad as nat,
                no_stage: no_stage as nat,
                no_delivery: no_delivery as nat,
                samples: views(samples@),
            }),
        decreases tickets.len() - i,
    {
        let t = tickets[i];
        assert(all[i as int] == t@);
        let at = cat2("ticket[", decimal_len(i).as_str());
        let no = match ticket_ad_id(t) {
            Some(s) => trim(s.as_str()).as_str().is_empty(),
            None => true,
        };
        if no {
            no_ad += 1;
            push_sampled(&mut samples, cat2(at.as_str(), "]: ad_id missing or empty"));
        }
        if trim(ticket_stage(t).as_str()).as_str().is_empty() {
            no_stage += 1;
            push_sampled(&mut samples, cat2(at.as_str(), "]: stage missing or empty"));
        }
        if delivery_epoch(t).is_none() {
            no_delivery += 1;
            push_sampled(
                &mut samples,
                cat2(
                    at.as_str(),
                    "]: delivery missing or unparseable (epoch seconds or ISO-8601)",
                ),
            );
        }
        i += 1;
    }
    assert(all.len() == tickets@.len());
    let ghost start = views(errors@);
    if no_ad > 0 || no_stage > 0 || no_delivery > 0 {
        let head = cat6(
            "required fields missing: ad_id on ",
            decimal_len(no_ad).as_str(),
            " ticket(s), stage on ",
            decimal_len(no_stage).as_str(),
            ", delivery on ",
            decimal_len(no_delivery).as_str(),
        );
        push_line(errors, head);
        append_lines(errors, samples);
        assert(views(errors@) =~= start + missing_errors(all));
    } else {
        assert(start + missing_errors(all) =~= start);
    }
}

// Stages

/// Whether a stage is known: one of the canonical ones, or of the workspace's own.
pub open spec fn is_known(stage: Seq<char>, own: Seq<Seq<char>>) -> bool {
    canonical_stages().contains(stage) || own.contains(stage)
}

/// A tally with one more `name`.
pub open spec fn tallied(t: Seq<(Seq<char>, nat)>, name: Seq<char>) -> Seq<(Seq<char>, nat)>
    decreases t.len(),
{
    if t.len() == 0 {
        seq![(name, 1nat)]
    } else if t[0].0 == name {
        seq![(name, t[0].1 + 1)] + t.drop_first()
    } else {
        seq![t[0]] + tallied(t.drop_first(), name)
    }
}

/// The stages of the tickets that are not known, with how often each occurs, in the order in which
/// they first do.
pub open spec fn unknown_stages(tickets: Seq<JsonV>, own: Seq<Seq<char>>) -> Seq<
    (Seq<char>, nat),
>
    decreases tickets.len(),
{
    if tickets.len() == 0 {
        Seq::empty()
    } else {
        let before = unknown_stages(tickets.drop_last(), own);
        let s = stage_in(tickets.last());
        if trimmed(s).len() > 0 && !is_known(s, own) {
            tallied(before, s)
        } else {
            before
        }
    }
}

/// A tally in descending order with one more entry, behind those that count as much.
pub open spec fn ranked_with(t: Seq<(Seq<char>, nat)>, e: (Seq<char>, nat)) -> Seq<
    (Seq<char>, nat),
>
    decreases t.len(),
{
    if t.len() == 0 || t.last().1 >= e.1 {
        t.push(e)
    } else {
        ranked_with(t.drop_last(), e).push(t.last())
    }
}

/// A tally in descending order; entries that count as much stay in their order.
pub open spec fn ranked(t: Seq<(Seq<char>, nat)>) -> Seq<(Seq<char>, nat)>
    decreases t.len(),
{
    if t.len() == 0 {
        Seq::empty()
    } else {
        ranked_with(ranked(t.drop_last()), t.last())
    }
}

pub open spec fn descending(t: Seq<(Seq<char>, nat)>) -> bool {
    forall|i: int, j: int| 0 <= i < j < t.len() ==> (#[trigger] t[i]).1 >= (#[trigger] t[j]).1
}

proof fn lemma_ranked_with(t: Seq<(Seq<char>, nat)>, e: (Seq<char>, nat))
    requires
        descending(t),
    ensures
        descending(ranked_with(t, e)),
        ranked_with(t, e).to_multiset() == t.to_multiset().insert(e),
        ranked_with(t, e).len() == t.len() + 1,
        forall|i: int|
            0 <= i < ranked_with(t, e).len() ==> (#[trigger] ranked_with(t, e)[i]) == e
                || t.contains(ranked_with(t, e)[i]),
    decreases t.len(),
{
    broadcast use vstd::seq_lib::group_to_multiset_ensures;

    let r = ranked_with(t, e);
    if t.len() == 0 || t.last().1 >= e.1 {
        assert(r =~= t.push(e));
        assert forall|i: int| 0 <= i < r.len() implies (#[trigger] r[i]) == e || t.contains(
            r[i],
        ) by {
            if i < t.len() {
                assert(r[i] == t[i]);
            }
        }
        assert forall|i: int, j: int| 0 <= i < j < r.len() implies (#[trigger] r[i]).1 >= (
        #[trigger] r[j]).1 by {
            if j == t.len() {
                if i < t.len() - 1 {
                    assert(t[i].1 >= t[t.len() - 1].1);
                }
            } else {
                assert(t[i].1 >= t[j].1);
            }
        }
    } else {
        let rest = t.drop_last();
        assert(forall|i: int| 0 <= i < rest.len() ==> #[trigger] rest[i] == t[i]);
        lemma_ranked_with(rest, e);
        let q = ranked_with(rest, e);
        assert(t =~= rest.push(t.last()));
        assert(r =~= q.push(t.last()));
        assert forall|i: int| 0 <= i < r.len() implies (#[trigger] r[i]) == e || t.contains(
            r[i],
        ) by {
            if i < q.len() {
                assert(r[i] == q[i]);
                if q[i] != e {
                    let k = choose|k: int| 0 <= k < rest.len() && rest[k] == q[i];
                    assert(t[k] == q[i]);
                }
            } else {
                assert(t[t.len() - 1] == r[i]);
            }
        }
        assert forall|i: int, j: int| 0 <= i < j < r.len() implies (#[trigger] r[i]).1 >= (
        #[trigger] r[j]).1 by {
            if j < q.len() {
                assert(q[i].1 >= q[j].1);
            } else {
                assert(r[i] == q[i]);
                if q[i] != e {
                    let k = choose|k: int| 0 <= k < rest.len() && rest[k] == q[i];
                    assert(t[k].1 >= t[t.len() - 1].1);
                }
            }
        }
        assert(r.to_multiset() =~= t.to_multiset().insert(e));
    }
}

/// Ranking puts a tally in descending order and neither adds nor drops an entry.
pub proof fn law_ranked_is_the_tally_in_order(t: Seq<(Seq<char>, nat)>)
    ensures
        descending(ranked(t)),
        ranked(t).to_multiset() == t.to_multiset(),
        ranked(t).len() == t.len(),
    decreases t.len(),
{
    broadcast use vstd::seq_lib::group_to_multiset_ensures;

    if t.len() > 0 {
        law_ranked_is_the_tally_in_order(t.drop_last());
        lemma_ranked_with(ranked(t.drop_last()), t.last());
        assert(t =~= t.drop_last().push(t.last()));
    } else {
        assert(t =~= ranked(t));
    }
}

/// An entry as it is shown.
pub open spec fn entry_text(e: (Seq<char>, nat)) -> Seq<char> {
    "\""@ + e.0 + "\" x"@ + dec(e.1)
}

/// The first entries of a tally as they are shown.
pub open spec fn entries_text(t: Seq<(Seq<char>, nat)>) -> Seq<char> {
    joined(
        t.take(
            if t.len() < SAMPLE_CAP {
                t.len() as int
            } else {
                SAMPLE_CAP as int
            },
        ).map_values(|e: (Seq<char>, nat)| entry_text(e)),
        ", "@,
    )
}

/// The warning for stages that are not known.
pub open spec fn stage_warnings(tickets: Seq<JsonV>, own: Seq<Seq<char>>) -> Seq<Seq<char>> {
    let t = unknown_stages(tickets, own);
    if t.len() == 0 {
        Seq::empty()
    } else {
        seq![
            "unrecognized stage name(s): "@ + entries_text(ranked(t))
                + " - map to canonical stages ("@
                + "Lost, NonContactable, Contactable, Visit, Revisit, Booking"@
                + ") or add to crm.stages in config.json"@,
        ]
    }
}

spec fn tally_view(v: Seq<(String, usize)>) -> Seq<(Seq<char>, nat)> {
    v.map_values(|p: (String, usize)| (p.0@, p.1 as nat))
}

fn stage_known(stage: &str, own: &Vec<String>) -> (r: bool)
    ensures
        r == is_known(stage@, views(own@)),
{
    let ghost names = canonical_stages();
    assert(names[0] == "Lost"@ && names[1] == "NonContactable"@ && names[2] == "Contactable"@
        && names[3] == "Visit"@ && names[4] == "Revisit"@ && names[5] == "Booking"@);
    if same(stage, "Lost") || same(stage, "NonContactable") || same(stage, "Contactable") || same(
        stage,
        "Visit",
    ) || same(stage, "Revisit") || same(stage, "Booking") {
        return true;
    }
    assert(!names.contains(stage@));
    let mut i: usize = 0;
    while i < own.len()
        invariant
            i <= own@.len(),
            !canonical_stages().contains(stage@),
            forall|k: int| 0 <= k < i ==> views(own@)[k] != stage@,
        decreases own.len() - i,
    {
        assert(views(own@)[i as int] == own@[i as int]@);
        if same(own[i].as_str(), stage) {
            assert(views(own@).contains(stage@));
            return true;
        }
        i += 1;
    }
    false
}

fn add_tally(t: &mut Vec<(String, usize)>, name: String, bound: usize)
    requires
        bound < usize::MAX,
        forall|k: int| 0 <= k < old(t)@.len() ==> (#[trigger] old(t)@[k]).1 <= bound,
    ensures
        tally_view(final(t)@) == tallied(tally_view(old(t)@), name@),
        forall|k: int| 0 <= k < final(t)@.len() ==> (#[trigger] final(t)@[k]).1 <= bound + 1,
{
    let ghost all = tally_view(t@);
    let ghost given = t@;
    let mut i: usize = 0;
    assert(all.skip(0) =~= all);
    assert(all.take(0) + tallied(all, name@) =~= tallied(all, name@));
    while i < t.len()
        invariant
            i <= t@.len(),
            t@ == given,
            bound < usize::MAX,
            all == tally_view(given),
            tally_view(old(t)@) == all,
            forall|k: int| 0 <= k < t@.len() ==> (#[trigger] t@[k]).1 <= bound,
            all.take(i as int) + tallied(all.skip(i as int), name@) == tallied(all, name@),
        decreases t.len() - i,
    {
        let ghost rest = all.skip(i as int);
        assert(rest.drop_first() =~= all.skip(i + 1));
        assert(all[i as int] == (t@[i as int].0@, t@[i as int].1 as nat));
        if same(t[i].0.as_str(), name.as_str()) {
            assert(t@[i as int].1 <= bound);
            let n: usize = t[i].1 + 1;
            t.set(i, (name, n));
            assert(tally_view(t@) =~= all.take(i as int) + tallied(rest, name@));
            return;
        }
        assert(all.take(i + 1) + tallied(all.skip(i + 1), name@) =~= all.take(i as int) + tallied(
            rest,
            name@,
        ));
        i += 1;
    }
    t.push((name, 1));
    assert(all.skip(i as int) =~= Seq::empty());
    assert(tally_view(t@) =~= all.take(i as int) + seq![(name@, 1nat)]);
}

fn tally_unknown(tickets: &Vec<&Json>, own: &Vec<String>) -> (r: Vec<(String, usize)>)
    ensures
        tally_view(r@) == unknown_stages(refs_view(tickets@), views(own@)),
{
    let ghost all = refs_view(tickets@);
    let mut t: Vec<(String, usize)> = Vec::new();
    let mut i: usize = 0;
    assert(tally_view(t@) =~= Seq::empty());
    assert(all.take(0) =~= Seq::empty());
    while i < tickets.len()
        invariant
            i <= tickets@.len(),
            all == refs_view(tickets@),
            tally_view(t@) == unknown_stages(all.take(i as int), views(own@)),
            forall|k: int| 0 <= k < t@.len() ==> (#[trigger] t@[k]).1 <= i,
        decreases tickets.len() - i,
    {
        assert(all.take(i + 1).drop_last() =~= all.take(i as int));
        assert(all[i as int] == tickets@[i as int]@);
        let s = ticket_stage(tickets[i]);
        if !trim(s.as_str()).as_str().is_empty() && !stage_known(s.as_str(), own) {
            add_tally(&mut t, s, i);
        }
        i += 1;
    }
    assert(all.take(i as int) =~= all);
    t
}

fn rank_in(t: &mut Vec<(String, usize)>, e: (String, usize))
    ensures
        tally_view(final(t)@) == ranked_with(tally_view(old(t)@), (e.0@, e.1 as nat)),
{
    let ghost all = tally_view(t@);
    let ghost entry = (e.0@, e.1 as nat);
    let ghost given = t@;
    let mut k: usize = t.len();
    assert(all.take(k as int) =~= all);
    assert(ranked_with(all, entry) + all.skip(k as int) =~= ranked_with(all, entry));
    while k > 0 && t[k - 1].1 < e.1
        invariant
            k <= t@.len(),
            t@ == given,
            all == tally_view(given),
            entry == (e.0@, e.1 as nat),
            ranked_with(all.take(k as int), entry) + all.skip(k as int) == ranked_with(all, entry),
        decreases k,
    {
        let ghost head = all.take(k as int);
        assert(head.drop_last() =~= all.take(k - 1));
        assert(all[k - 1] == (t@[k - 1].0@, t@[k - 1].1 as nat));
        assert(head.last() == all[k - 1]);
        assert(ranked_with(head, entry) == ranked_with(all.take(k - 1), entry).push(all[k - 1]));
        assert(ranked_with(all.take(k - 1), entry) + all.skip(k - 1) =~= ranked_with(head, entry)
            + all.skip(k as int));
        k -= 1;
    }
    proof {
        let head = all.take(k as int);
        if k > 0 {
            assert(all[k - 1] == (t@[k - 1].0@, t@[k - 1].1 as nat));
            assert(head.last() == all[k - 1]);
        }
        assert(ranked_with(head, entry) == head.push(entry));
    }
    t.insert(k, e);
    assert(tally_view(t@) =~= all.take(k as int).push(entry) + all.skip(k as int));
}

fn rank(t: Vec<(String, usize)>) -> (r: Vec<(String, usize)>)
    ensures
        tally_view(r@) == ranked(tally_view(t@)),
{
    let ghost all = tally_view(t@);
    let mut out: Vec<(String, usize)> = Vec::new();
    let mut i: usize = 0;
    assert(tally_view(out@) =~= Seq::empty());
    assert(all.take(0) =~= Seq::empty());
    while i < t.len()
        invariant
            i <= t@.len(),
            all == tally_view(t@),
            tally_view(out@) == ranked(all.take(i as int)),
        decreases t.len() - i,
    {
        assert(all.take(i + 1).drop_last() =~= all.take(i as int));
        assert(all[i as int] == (t@[i as int].0@, t@[i as int].1 as nat));
        rank_in(&mut out, (t[i].0.clone(), t[i].1));
        i += 1;
    }
    assert(all.take(i as int) =~= all);
    out
}

fn show_entries(t: &Vec<(String, usize)>) -> (r: String)
    ensures
        r@ == entries_text(tally_view(t@)),
{
    let ghost all = tally_view(t@);
    let n: usize = if t.len() < SAMPLE_CAP {
        t.len()
    } else {
        SAMPLE_CAP
    };
    let ghost want = all.take(n as int).map_values(|e: (Seq<char>, nat)| entry_text(e));
    let mut parts: Vec<String> = Vec::new();
    let mut i: usize = 0;
    assert(views(parts@) =~= want.take(0));
    while i < n
        invariant
            i <= n <= t@.len(),
            all == tally_view(t@),
            want == all.take(n as int).map_values(|e: (Seq<char>, nat)| entry_text(e)),
            views(parts@) == want.take(i as int),
        decreases n - i,
    {
        assert(all[i as int] == (t@[i as int].0@, t@[i as int].1 as nat));
        let line = cat4("\"", t[i].0.as_str(), "\" x", decimal_len(t[i].1).as_str());
        assert(want.take(i + 1) =~= want.take(i as int).push(line@));
        push_line(&mut parts, line);
        i += 1;
    }
    assert(want.take(i as int) =~= want);
    join(&parts, ", ")
}

fn check_stages(tickets: &Vec<&Json>, own: &Vec<String>, warnings: &mut Vec<String>)
    ensures
        views(final(warnings)@) == views(old(warnings)@) + stage_warnings(
            refs_view(tickets@),
            views(own@),
        ),
{
    let t = tally_unknown(tickets, own);
    let ghost start = views(warnings@);
    assert(tally_view(t@).len() == t@.len());
    if t.len() == 0 {
        assert(start + stage_warnings(refs_view(tickets@), views(own@)) =~= start);
        return;
    }
    let shown = show_entries(&rank(t));
    let line = cat5(
        "unrecognized stage name(s): ",
        shown.as_str(),
        " - map to canonical stages (",
        "Lost, NonContactable, Contactable, Visit, Revisit, Booking",
        ") or add to crm.stages in config.json",
    );
    push_line(warnings, line);
    assert(views(warnings@) =~= start + stage_warnings(refs_view(tickets@), views(own@)));
}

// Delivery

/// The times of delivery of the tickets that have one.
pub open spec fn deliveries(tickets: Seq<JsonV>) -> Seq<i64>
    decreases tickets.len(),
{
    if tickets.len() == 0 {
        Seq::empty()
    } else {
        let before = deliveries(tickets.drop_last());
        match delivery_in(tickets.last()) {
            Some(e) => before.push(e),
            None => before,
        }
    }
}

/// The least of some numbers, of which there is at least one.
pub open spec fn least(s: Seq<i64>) -> i64
    decreases s.len(),
{
    if s.len() <= 1 {
        s[0]
    } else if s.last() < least(s.drop_last()) {
        s.last()
    } else {
        least(s.drop_last())
    }
}

/// The greatest of some numbers, of which there is at least one.
pub open spec fn greatest(s: Seq<i64>) -> i64
    decreases s.len(),
{
    if s.len() <= 1 {
        s[0]
    } else if s.last() > greatest(s.drop_last()) {
        s.last()
    } else {
        greatest(s.drop_last())
    }
}

/// The range of some numbers holds each of them and ends in two of them.
pub proof fn law_range_is_tight(s: Seq<i64>)
    requires
        s.len() > 0,
    ensures
        s.contains(least(s)),
        s.contains(greatest(s)),
        forall|i: int| 0 <= i < s.len() ==> least(s) <= #[trigger] s[i] <= greatest(s),
    decreases s.len(),
{
    if s.len() == 1 {
        assert(s[0] == least(s));
    } else {
        let rest = s.drop_last();
        law_range_is_tight(rest);
        let a = choose|k: int| 0 <= k < rest.len() && rest[k] == least(rest);
        let b = choose|k: int| 0 <= k < rest.len() && rest[k] == greatest(rest);
        assert(s[a] == least(rest) && s[b] == greatest(rest));
        assert(s[s.len() - 1] == s.last());
        assert forall|i: int| 0 <= i < s.len() implies least(s) <= #[trigger] s[i] <= greatest(
            s,
        ) by {
            if i < rest.len() {
                assert(least(rest) <= rest[i] <= greatest(rest));
            }
        }
    }
}

/// A point in time as it is shown.
pub open spec fn epoch_shown(e: i64) -> Seq<char> {
    match epoch_day_text_of(e) {
        Some(t) => t,
        None => "epoch "@ + dec_int(e as int),
    }
}

pub open spec fn delivery_info(tickets: Seq<JsonV>) -> Seq<Seq<char>> {
    let d = deliveries(tickets);
    if d.len() == 0 {
        Seq::empty()
    } else {
        seq![
            "delivery range: "@ + epoch_shown(least(d)) + " .. "@ + epoch_shown(greatest(d)) + " ("@
                + dec(d.len()) + " ticket(s) with parseable delivery)"@,
        ]
    }
}

pub fn epoch_date(e: i64) -> (r: String)
    ensures
        r@ == epoch_shown(e),
{
    match epoch_day_text(e) {
        Some(t) => t,
        None => cat2("epoch ", decimal_int(e).as_str()),
    }
}

fn check_delivery_range(tickets: &Vec<&Json>, info: &mut Vec<String>)
    ensures
        views(final(info)@) == views(old(info)@) + delivery_info(refs_view(tickets@)),
{
    let ghost all = refs_view(tickets@);
    let mut n: usize = 0;
    let mut low: i64 = 0;
    let mut high: i64 = 0;
    let mut i: usize = 0;
    assert(all.take(0) =~= Seq::empty());
    while i < tickets.len()
        invariant
            i <= tickets@.len(),
            all == refs_view(tickets@),
            n <= i,
            n == deliveries(all.take(i as int)).len(),
            n > 0 ==> low == least(deliveries(all.take(i as int))) && high == greatest(
                deliveries(all.take(i as int)),
            ),
        decreases tickets.len() - i,
    {
        assert(all.take(i + 1).drop_last() =~= all.take(i as int));
        assert(all[i as int] == tickets@[i as int]@);
        match delivery_epoch(tickets[i]) {
            Some(e) => {
                proof {
                    let d = deliveries(all.take(i as int));
                    assert(d.push(e).drop_last() =~= d);
                }
                if n == 0 || e < low {
                    low = e;
                }
                if n == 0 || e > high {
                    high = e;
                }
                n += 1;
            },
            None => {},
        }
        i += 1;
    }
    assert(all.take(i as int) =~= all);
    let ghost start = views(info@);
    if n > 0 {
        let line = cat7(
            "delivery range: ",
            epoch_date(low).as_str(),
            " .. ",
            epoch_date(high).as_str(),
            " (",
            decimal_len(n).as_str(),
            " ticket(s) with parseable delivery)",
        );
        push_line(info, line);
        assert(views(info@) =~= start + delivery_info(all));
    } else {
        assert(start + delivery_info(all) =~= start);
    }
}

// Joining

/// The ids of the ads of a snapshot.
pub open spec fn snapshot_ids(s: Snapshot) -> Seq<Seq<char>> {
    s.ads_daily@.map_values(|r: crate::snapshot::AdsDailyRow| r.ad_id@)
}

/// How many of the tickets have the id of an ad, and how many of these ids are among `ids`.
pub open spec fn join_counts_of(tickets: Seq<JsonV>, ids: Seq<Seq<char>>) -> (nat, nat)
    decreases tickets.len(),
{
    if tickets.len() == 0 {
        (0, 0)
    } else {
        let (with_id, matched) = join_counts_of(tickets.drop_last(), ids);
        match ad_id_in(tickets.last()) {
            Some(id) => (
                with_id + 1,
                if ids.contains(id) {
                    matched + 1
                } else {
                    matched
                },
            ),
            None => (with_id, matched),
        }
    }
}

/// The line on the share of tickets that join; `share` is that share as it is shown.
pub open spec fn join_line(date: Seq<char>, with_id: nat, matched: nat, share: Seq<char>) -> Seq<
    char,
> {
    "ad_id join vs snapshot "@ + date + ": "@ + dec(matched) + "/"@ + dec(with_id)
        + " tickets match a known Meta ad ("@ + share + "%)"@
}

/// Below four fifths.
pub open spec fn is_low(with_id: nat, matched: nat) -> bool {
    matched * 5 < with_id * 4
}

fn has_id(s: &Snapshot, id: &str) -> (r: bool)
    ensures
        r == snapshot_ids(*s).contains(id@),
{
    let ghost ids = snapshot_ids(*s);
    let mut i: usize = 0;
    while i < s.ads_daily.len()
        invariant
            i <= s.ads_daily@.len(),
            ids == snapshot_ids(*s),
            forall|k: int| 0 <= k < i ==> ids[k] != id@,
        decreases s.ads_daily.len() - i,
    {
        assert(ids[i as int] == s.ads_daily@[i as int].ad_id@);
        if same(s.ads_daily[i].ad_id.as_str(), id) {
            return true;
        }
        i += 1;
    }
    false
}

fn counts(tickets: &Vec<&Json>, s: &Snapshot) -> (r: (usize, usize))
    ensures
        (r.0 as nat, r.1 as nat) == join_counts_of(refs_view(tickets@), snapshot_ids(*s)),
        r.1 <= r.0,
{
    let ghost all = refs_view(tickets@);
    let mut with_id: usize = 0;
    let mut matched: usize = 0;
    let mut i: usize = 0;
    assert(all.take(0) =~= Seq::empty());
    while i < tickets.len()
        invariant
            i <= tickets@.len(),
            all == refs_view(tickets@),
            matched <= with_id <= i,
            (with_id as nat, matched as nat) == join_counts_of(
                all.take(i as int),
                snapshot_ids(*s),
            ),
        decreases tickets.len() - i,
    {
        assert(all.take(i + 1).drop_last() =~= all.take(i as int));
        assert(all[i as int] == tickets@[i as int]@);
        match ticket_ad_id(tickets[i]) {
            Some(id) => {
                with_id += 1;
                if has_id(s, id.as_str()) {
                    matched += 1;
                }
            },
            None => {},
        }
        i += 1;
    }
    assert(all.take(i as int) =~= all);
    (with_id, matched)
}

/// How many tickets of an export have the id of an ad, and how many of these ids a snapshot knows.
pub fn join_counts(crm: &Json, s: &Snapshot) -> (r: (usize, usize))
    ensures
        (r.0 as nat, r.1 as nat) == join_counts_of(tickets_in(crm@), snapshot_ids(*s)),
{
    counts(&tickets_of(crm), s)
}

/// What joining adds to a report.
pub open spec fn with_join(
    r: CheckReportV,
    tickets: Seq<JsonV>,
    date: Seq<char>,
    ids: Seq<Seq<char>>,
    share: Seq<char>,
) -> CheckReportV {
    if ids.len() == 0 {
        CheckReportV {
            info: r.info.push("snapshot has no ads_daily rows - join-rate check skipped"@),
            ..r
        }
    } else {
        let (with_id, matched) = join_counts_of(tickets, ids);
        let line = join_line(date, with_id, matched, share);
        if matched == 0 {
            CheckReportV {
                errors: r.errors.push(
                    line
                        + " - the export is not using Meta ad ids (form ids and internal ids do not join)"@,
                ),
                ..r
            }
        } else if is_low(with_id, matched) {
            CheckReportV {
                warnings: r.warnings.push(
                    line
                        + " - low join rate; leads outside the snapshot window are normal, but check id source"@,
                ),
                ..r
            }
        } else {
            CheckReportV { info: r.info.push(line), ..r }
        }
    }
}

fn check_join_rate(tickets: &Vec<&Json>, s: &Snapshot, share: &str, r: &mut CheckReport)
    ensures
        final(r)@ == with_join(
            old(r)@,
            refs_view(tickets@),
            s.date@,
            snapshot_ids(*s),
            share@,
        ),
{
    assert(snapshot_ids(*s).len() == s.ads_daily@.len());
    if s.ads_daily.len() == 0 {
        push_line(
            &mut r.info,
            "snapshot has no ads_daily rows - join-rate check skipped".to_owned(),
        );
        return;
    }
    let (with_id, matched) = counts(tickets, s);
    let head = cat6(
        "ad_id join vs snapshot ",
        s.date.as_str(),
        ": ",
        decimal_len(matched).as_str(),
        "/",
        decimal_len(with_id).as_str(),
    );
    let line = cat4(head.as_str(), " tickets match a known Meta ad (", share, "%)");
    if matched == 0 {
        push_line(
            &mut r.errors,
            cat2(
                line.as_str(),
                " - the export is not using Meta ad ids (form ids and internal ids do not join)",
            ),
        );
    } else if (matched as u128) * 5 < (with_id as u128) * 4 {
        push_line(
            &mut r.warnings,
            cat2(
                line.as_str(),
                " - low join rate; leads outside the snapshot window are normal, but check id source",
            ),
        );
    } else {
        push_line(&mut r.info, line);
    }
}

// The whole check

/// What the check of an export finds. `own` are the workspace's own stages; `snap` is the date of a
/// snapshot and the ids of its ads, where there is one, and `share` the share of tickets that join
/// it as it is shown.
pub open spec fn check_of(
    crm: JsonV,
    own: Seq<Seq<char>>,
    snap: Option<(Seq<char>, Seq<Seq<char>>)>,
    share: Seq<char>,
) -> CheckReportV {
    let tickets = tickets_in(crm);
    let shape = CheckReportV {
        tickets: tickets.len(),
        errors: shape_errors(crm),
        warnings: Seq::empty(),
        info: shape_info(crm),
    };
    if !(crm is List || crm is Object) {
        shape
    } else if tickets.len() == 0 {
        CheckReportV { warnings: seq!["0 tickets - empty export"@], ..shape }
    } else {
        let found = CheckReportV {
            errors: shape.errors + missing_errors(tickets),
            warnings: stage_warnings(tickets, own),
            info: shape.info + delivery_info(tickets),
            ..shape
        };
        match snap {
            Some((date, ids)) => with_join(found, tickets, date, ids, share),
            None => CheckReportV {
                info: found.info.push("no snapshot in workspace - ad_id join-rate check skipped"@),
                ..found
            },
        }
    }
}

pub open spec fn snapshot_known(s: Option<&Snapshot>) -> Option<(Seq<char>, Seq<Seq<char>>)> {
    match s {
        Some(s) => Some((s.date@, snapshot_ids(*s))),
        None => None,
    }
}

/// Checks an export. `share` is the share of tickets that join the snapshot as it is shown, in
/// percent, from `join_counts`.
pub fn check(crm: &Json, stages: &Vec<String>, snap: Option<&Snapshot>, share: &str) -> (r:
    CheckReport)
    ensures
        r@ == check_of(crm@, views(stages@), snapshot_known(snap), share@),
{
    let tickets = tickets_of(crm);
    let mut r = CheckReport {
        tickets: tickets.len(),
        errors: Vec::new(),
        warnings: Vec::new(),
        info: Vec::new(),
    };
    proof {
        lemma_list_view(*crm);
        assert(views(r.errors@) =~= Seq::empty());
        assert(views(r.warnings@) =~= Seq::empty());
        assert(views(r.info@) =~= Seq::empty());
        assert(refs_view(tickets@).len() == tickets@.len());
    }
    match crm {
        Json::List(items) => {
            assert(list_view(items@).len() == items@.len());
            list_shape(&mut r.errors, "ticket[", items);
        },
        Json::Object(pairs) => {
            assert(pairs_view(pairs@).len() == pairs@.len());
            map_shape(&mut r.errors, pairs);
            push_line(
                &mut r.info,
                "legacy campaign-map shape (flat array preferred)".to_owned(),
            );
            assert(views(r.info@) =~= shape_info(crm@));
        },
        _ => {
            push_line(
                &mut r.errors,
                "crm.json must be a JSON array of ticket objects (see moneyball crm contract)".to_owned(),
            );
            assert(views(r.errors@) =~= shape_errors(crm@));
            return r;
        },
    }
    if tickets.len() == 0 {
        push_line(&mut r.warnings, "0 tickets - empty export".to_owned());
        assert(views(r.warnings@) =~= seq!["0 tickets - empty export"@]);
        return r;
    }
    check_required_fields(&tickets, &mut r.errors);
    check_stages(&tickets, stages, &mut r.warnings);
    assert(views(r.warnings@) =~= stage_warnings(tickets_in(crm@), views(stages@)));
    check_delivery_range(&tickets, &mut r.info);
    match snap {
        Some(s) => {
            check_join_rate(&tickets, s, share, &mut r);
        },
        None => {
            push_line(
                &mut r.info,
                "no snapshot in workspace - ad_id join-rate check skipped".to_owned(),
            );
        },
    }
    r
}

/// Where every ticket has its id, its stage and its time and the export is a list of objects or
/// such a map, the check finds an error only if no ticket joins the snapshot.
pub proof fn law_complete_export_passes(
    crm: JsonV,
    own: Seq<Seq<char>>,
    snap: Option<(Seq<char>, Seq<Seq<char>>)>,
    share: Seq<char>,
)
    requires
        crm is List || crm is Object,
        shape_errors(crm).len() == 0,
        forall|i: int|
            0 <= i < tickets_in(crm).len() ==> !lacks_ad(#[trigger] tickets_in(crm)[i])
                && !lacks_stage(tickets_in(crm)[i]) && delivery_in(tickets_in(crm)[i]) is Some,
        snap matches Some((date, ids)) ==> ids.len() == 0 || join_counts_of(
            tickets_in(crm),
            ids,
        ).1 > 0,
    ensures
        check_of(crm, own, snap, share).errors.len() == 0,
{
    let tickets = tickets_in(crm);
    lemma_nothing_missing(tickets, tickets.len() as int);
}

proof fn lemma_nothing_missing(tickets: Seq<JsonV>, n: int)
    requires
        0 <= n <= tickets.len(),
        forall|i: int|
            0 <= i < tickets.len() ==> !lacks_ad(#[trigger] tickets[i]) && !lacks_stage(tickets[i])
                && delivery_in(tickets[i]) is Some,
    ensures
        missing_in(tickets, n) == (MissingV {
            no_ad: 0,
            no_stage: 0,
            no_delivery: 0,
            samples: Seq::empty(),
        }),
    decreases n,
{
    if n > 0 {
        lemma_nothing_missing(tickets, n - 1);
        assert(!lacks_ad(tickets[n - 1]));
    }
}

} // verus!
