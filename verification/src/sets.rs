//! Lists of texts as sets: in order and without repetition.

use crate::rank::order_view;
use crate::strs::{less, same, text_lt, views};
use vstd::prelude::*;

verus! {

// The order of texts

pub proof fn lemma_lt_irreflexive(a: Seq<char>)
    ensures
        !text_lt(a, a),
    decreases a.len(),
{
    if a.len() > 0 {
        lemma_lt_irreflexive(a.drop_first());
    }
}

pub proof fn lemma_lt_total(a: Seq<char>, b: Seq<char>)
    ensures
        text_lt(a, b) || text_lt(b, a) || a == b,
    decreases a.len(),
{
    if a.len() > 0 && b.len() > 0 {
        if a[0] == b[0] {
            lemma_lt_total(a.drop_first(), b.drop_first());
            if a.drop_first() == b.drop_first() {
                assert(a =~= seq![a[0]] + a.drop_first());
                assert(b =~= seq![b[0]] + b.drop_first());
            }
        }
    } else if a.len() == 0 && b.len() == 0 {
        assert(a =~= b);
    }
}

pub proof fn lemma_lt_transitive(a: Seq<char>, b: Seq<char>, c: Seq<char>)
    requires
        text_lt(a, b),
        text_lt(b, c),
    ensures
        text_lt(a, c),
    decreases a.len(),
{
    if a.len() > 0 && b.len() > 0 && c.len() > 0 {
        if a[0] == b[0] && b[0] == c[0] {
            lemma_lt_transitive(a.drop_first(), b.drop_first(), c.drop_first());
        }
    }
}

/// Whether each text stands before those behind it: in order, and none twice.
pub open spec fn is_ascending(v: Seq<Seq<char>>) -> bool {
    forall|i: int, j: int| 0 <= i < j < v.len() ==> text_lt(#[trigger] v[i], #[trigger] v[j])
}

/// A list in order with one more text in its place, where it is not there yet.
pub open spec fn with_text(v: Seq<Seq<char>>, t: Seq<char>) -> Seq<Seq<char>>
    decreases v.len(),
{
    if v.len() == 0 {
        seq![t]
    } else if v.last() == t {
        v
    } else if text_lt(v.last(), t) {
        v.push(t)
    } else {
        with_text(v.drop_last(), t).push(v.last())
    }
}

/// The texts in order, each once.
pub open spec fn sorted_set(v: Seq<Seq<char>>) -> Seq<Seq<char>>
    decreases v.len(),
{
    if v.len() == 0 {
        Seq::empty()
    } else {
        with_text(sorted_set(v.drop_last()), v.last())
    }
}

pub proof fn lemma_with_text(v: Seq<Seq<char>>, t: Seq<char>)
    requires
        is_ascending(v),
    ensures
        is_ascending(with_text(v, t)),
        forall|x: Seq<char>| #[trigger] with_text(v, t).contains(x) <==> x == t || v.contains(x),
    decreases v.len(),
{
    let r = with_text(v, t);
    if v.len() == 0 {
        assert(r[0] == t);
        assert(r.contains(t));
    } else if v.last() == t {
        assert(v[v.len() - 1] == t);
    } else if text_lt(v.last(), t) {
        assert forall|i: int, j: int| 0 <= i < j < r.len() implies text_lt(
            #[trigger] r[i],
            #[trigger] r[j],
        ) by {
            assert(r[i] == v[i]);
            if j == v.len() {
                if i < v.len() - 1 {
                    assert(text_lt(v[i], v[v.len() - 1]));
                    lemma_lt_transitive(v[i], v.last(), t);
                }
            } else {
                assert(r[j] == v[j]);
            }
        }
        assert forall|x: Seq<char>| #[trigger] r.contains(x) <==> x == t || v.contains(x) by {
            if v.contains(x) {
                let k = choose|k: int| 0 <= k < v.len() && v[k] == x;
                assert(r[k] == x);
            }
            assert(r[v.len() as int] == t);
        }
    } else {
        let rest = v.drop_last();
        let last = v.last();
        assert(forall|i: int| 0 <= i < rest.len() ==> #[trigger] rest[i] == v[i]);
        lemma_with_text(rest, t);
        lemma_lt_total(last, t);
        let q = with_text(rest, t);
        assert(r =~= q.push(last));
        assert(v[v.len() - 1] == last);
        assert forall|i: int, j: int| 0 <= i < j < r.len() implies text_lt(
            #[trigger] r[i],
            #[trigger] r[j],
        ) by {
            assert(r[i] == q[i]);
            if j < q.len() {
                assert(r[j] == q[j]);
            } else {
                assert(q.contains(q[i]));
                if q[i] != t {
                    let k = choose|k: int| 0 <= k < rest.len() && rest[k] == q[i];
                    assert(v[k] == q[i]);
                }
            }
        }
        assert forall|x: Seq<char>| #[trigger] r.contains(x) <==> x == t || v.contains(x) by {
            if r.contains(x) {
                let k = choose|k: int| 0 <= k < r.len() && r[k] == x;
                if k < q.len() {
                    assert(q[k] == x);
                    assert(q.contains(x));
                    if x != t {
                        let m = choose|m: int| 0 <= m < rest.len() && rest[m] == x;
                        assert(v[m] == x);
                    }
                }
            }
            if x == t || v.contains(x) {
                if x == t {
                    assert(q.contains(x));
                } else {
                    let k = choose|k: int| 0 <= k < v.len() && v[k] == x;
                    if k < rest.len() {
                        assert(rest[k] == x);
                        assert(q.contains(x));
                    } else {
                        assert(r[q.len() as int] == x);
                    }
                }
                if q.contains(x) {
                    let m = choose|m: int| 0 <= m < q.len() && q[m] == x;
                    assert(r[m] == x);
                }
            }
        }
    }
}

/// The texts are in order, none comes twice, and just those of the list are there.
pub proof fn law_sorted_set(v: Seq<Seq<char>>)
    ensures
        is_ascending(sorted_set(v)),
        forall|x: Seq<char>| #[trigger] sorted_set(v).contains(x) <==> v.contains(x),
    decreases v.len(),
{
    if v.len() > 0 {
        let rest = v.drop_last();
        law_sorted_set(rest);
        lemma_with_text(sorted_set(rest), v.last());
        assert forall|x: Seq<char>| #[trigger] sorted_set(v).contains(x) <==> v.contains(x) by {
            if v.contains(x) {
                let k = choose|k: int| 0 <= k < v.len() && v[k] == x;
                if k < rest.len() {
                    assert(rest[k] == x);
                }
            }
            if rest.contains(x) {
                let k = choose|k: int| 0 <= k < rest.len() && rest[k] == x;
                assert(v[k] == x);
            }
            assert(v[v.len() - 1] == v.last());
        }
    }
}

/// Puts a text into its place in a list in order, where it is not there yet.
pub fn put_text(v: &mut Vec<String>, t: &str)
    ensures
        views(final(v)@) == with_text(views(old(v)@), t@),
{
    let ghost all = views(v@);
    let ghost given = v@;
    let mut k: usize = v.len();
    assert(all.take(k as int) =~= all);
    assert(with_text(all, t@) + all.skip(k as int) =~= with_text(all, t@));
    while k > 0
        invariant_except_break
            with_text(all.take(k as int), t@) + all.skip(k as int) == with_text(all, t@),
        invariant
            k <= v@.len(),
            v@ == given,
            all == views(given),
        ensures
            all.take(k as int).push(t@) + all.skip(k as int) == with_text(all, t@),
        decreases k,
    {
        let ghost head = all.take(k as int);
        assert(head.drop_last() =~= all.take(k - 1));
        assert(all[k - 1] == v@[k - 1]@);
        assert(head.last() == all[k - 1]);
        if same(v[k - 1].as_str(), t) {
            assert(head + all.skip(k as int) =~= all);
            return;
        }
        if less(v[k - 1].as_str(), t) {
            break;
        }
        assert(with_text(all.take(k - 1), t@) + all.skip(k - 1) =~= with_text(head, t@) + all.skip(
            k as int,
        ));
        k -= 1;
        if k == 0 {
            assert(all.take(0) =~= Seq::empty());
            assert(seq![t@] =~= all.take(0).push(t@));
        }
    }
    proof {
        if k == 0 {
            assert(all.take(0) =~= Seq::empty());
            assert(seq![t@] =~= all.take(0).push(t@));
        }
    }
    v.insert(k, t.to_owned());
    assert(views(v@) =~= all.take(k as int).push(t@) + all.skip(k as int));
}

/// Puts texts in order, each once.
pub fn sort_set(v: &Vec<String>) -> (r: Vec<String>)
    ensures
        views(r@) == sorted_set(views(v@)),
{
    let ghost all = views(v@);
    let mut out: Vec<String> = Vec::new();
    let mut i: usize = 0;
    assert(views(out@) =~= Seq::empty());
    assert(all.take(0) =~= Seq::empty());
    while i < v.len()
        invariant
            i <= v@.len(),
            all == views(v@),
            views(out@) == sorted_set(all.take(i as int)),
        decreases v.len() - i,
    {
        assert(all.take(i + 1).drop_last() =~= all.take(i as int));
        assert(all[i as int] == v@[i as int]@);
        put_text(&mut out, v[i].as_str());
        i += 1;
    }
    assert(all.take(i as int) =~= all);
    out
}

// Finding

/// The index of the first text that is `t`; the length of the list where there is none.
pub open spec fn place_of(v: Seq<Seq<char>>, t: Seq<char>) -> int
    decreases v.len(),
{
    if v.len() == 0 {
        0
    } else if v[0] == t {
        0
    } else {
        1 + place_of(v.drop_first(), t)
    }
}

pub proof fn lemma_place_of(v: Seq<Seq<char>>, t: Seq<char>)
    ensures
        0 <= place_of(v, t) <= v.len(),
        place_of(v, t) < v.len() ==> v[place_of(v, t)] == t,
        place_of(v, t) < v.len() <==> v.contains(t),
        forall|k: int| 0 <= k < place_of(v, t) ==> #[trigger] v[k] != t,
    decreases v.len(),
{
    if v.len() > 0 && v[0] != t {
        let rest = v.drop_first();
        lemma_place_of(rest, t);
        assert forall|k: int| 0 <= k < place_of(v, t) implies #[trigger] v[k] != t by {
            if k > 0 {
                assert(rest[k - 1] == v[k]);
            }
        }
        if v.contains(t) {
            let k = choose|k: int| 0 <= k < v.len() && v[k] == t;
            assert(rest[k - 1] == t);
        }
        if rest.contains(t) {
            let k = choose|k: int| 0 <= k < rest.len() && rest[k] == t;
            assert(v[k + 1] == t);
        }
    } else if v.len() > 0 {
        assert(v[0] == t);
    }
}

/// Finds a text in a list.
pub fn find_text(v: &Vec<String>, t: &str) -> (r: usize)
    ensures
        r == place_of(views(v@), t@),
        r <= v@.len(),
        r < v@.len() <==> views(v@).contains(t@),
        r < v@.len() ==> v@[r as int]@ == t@,
{
    let ghost all = views(v@);
    let mut i: usize = 0;
    assert(all.skip(0) =~= all);
    proof {
        lemma_place_of(all, t@);
    }
    while i < v.len()
        invariant
            i <= v@.len(),
            all == views(v@),
            place_of(all, t@) == i + place_of(all.skip(i as int), t@),
            place_of(all, t@) < v@.len() <==> all.contains(t@),
        decreases v.len() - i,
    {
        assert(all.skip(i as int).drop_first() =~= all.skip(i + 1));
        assert(all[i as int] == v@[i as int]@);
        if same(v[i].as_str(), t) {
            return i;
        }
        i += 1;
    }
    i
}

// Batches

/// The most ids that one request asks for.
pub const IDS_PER_BATCH: usize = 50;

/// The ids cut into batches.
pub open spec fn batches_of(ids: Seq<Seq<char>>) -> Seq<Seq<Seq<char>>>
    decreases ids.len(),
{
    if ids.len() == 0 {
        Seq::empty()
    } else if ids.len() <= IDS_PER_BATCH {
        seq![ids]
    } else {
        seq![ids.take(IDS_PER_BATCH as int)] + batches_of(ids.skip(IDS_PER_BATCH as int))
    }
}

pub open spec fn lists_view(v: Seq<Vec<String>>) -> Seq<Seq<Seq<char>>> {
    v.map_values(|l: Vec<String>| views(l@))
}

/// The lists one behind the other.
pub open spec fn flat(v: Seq<Seq<Seq<char>>>) -> Seq<Seq<char>>
    decreases v.len(),
{
    if v.len() == 0 {
        Seq::empty()
    } else {
        v[0] + flat(v.drop_first())
    }
}

/// The batches hold every id once and in its order, and none is empty or too large.
pub proof fn law_batches_cover(ids: Seq<Seq<char>>)
    ensures
        flat(batches_of(ids)) == ids,
        forall|k: int|
            0 <= k < batches_of(ids).len() ==> 0 < (#[trigger] batches_of(ids)[k]).len()
                <= IDS_PER_BATCH,
    decreases ids.len(),
{
    let b = batches_of(ids);
    if ids.len() == 0 {
        assert(flat(b) =~= ids);
    } else if ids.len() <= IDS_PER_BATCH {
        assert(flat(b.drop_first()) =~= Seq::<Seq<char>>::empty());
        assert(flat(b) =~= ids);
    } else {
        let rest = ids.skip(IDS_PER_BATCH as int);
        law_batches_cover(rest);
        assert(b.drop_first() =~= batches_of(rest));
        assert(flat(b) =~= ids);
        assert forall|k: int| 0 <= k < b.len() implies 0 < (#[trigger] b[k]).len()
            <= IDS_PER_BATCH by {
            if k > 0 {
                assert(b[k] == batches_of(rest)[k - 1]);
            }
        }
    }
}

fn copy_range(v: &Vec<String>, from: usize, to: usize) -> (r: Vec<String>)
    requires
        from <= to <= v@.len(),
    ensures
        views(r@) == views(v@).subrange(from as int, to as int),
{
    let ghost all = views(v@);
    let mut out: Vec<String> = Vec::new();
    let mut i: usize = from;
    assert(views(out@) =~= all.subrange(from as int, from as int));
    while i < to
        invariant
            from <= i <= to <= v@.len(),
            all == views(v@),
            views(out@) == all.subrange(from as int, i as int),
        decreases to - i,
    {
        assert(all[i as int] == v@[i as int]@);
        crate::strs::push_text(&mut out, v[i].clone());
        assert(views(out@) =~= all.subrange(from as int, i + 1));
        i += 1;
    }
    out
}

/// Cuts ids into batches.
pub fn batches(ids: &Vec<String>) -> (r: Vec<Vec<String>>)
    ensures
        lists_view(r@) == batches_of(views(ids@)),
{
    let ghost all = views(ids@);
    let mut out: Vec<Vec<String>> = Vec::new();
    let mut i: usize = 0;
    assert(all.skip(0) =~= all);
    assert(lists_view(out@) + batches_of(all) =~= batches_of(all));
    while i < ids.len()
        invariant
            i <= ids@.len(),
            all == views(ids@),
            lists_view(out@) + batches_of(all.skip(i as int)) == batches_of(all),
        decreases ids.len() - i,
    {
        let left: usize = ids.len() - i;
        let n: usize = if left <= IDS_PER_BATCH {
            left
        } else {
            IDS_PER_BATCH
        };
        let ghost rest = all.skip(i as int);
        let batch = copy_range(ids, i, i + n);
        assert(views(batch@) =~= rest.take(n as int));
        let ghost had = lists_view(out@);
        assert(lists_view(out@.push(batch)) =~= had.push(views(batch@)));
        proof {
            if left <= IDS_PER_BATCH {
                assert(rest.take(n as int) =~= rest);
                assert(all.skip(i + n) =~= Seq::empty());
                assert(had.push(rest) + batches_of(Seq::<Seq<char>>::empty()) =~= had + seq![rest]);
            } else {
                assert(all.skip(i + n) =~= rest.skip(n as int));
                assert(had.push(rest.take(n as int)) + batches_of(rest.skip(n as int)) =~= had + (
                seq![rest.take(n as int)] + batches_of(rest.skip(n as int))));
            }
        }
        out.push(batch);
        i += n;
    }
    assert(all.skip(i as int) =~= Seq::empty());
    assert(lists_view(out@) + batches_of(Seq::<Seq<char>>::empty()) =~= lists_view(out@));
    out
}

// Order

/// An order with one more put in, behind those that are not greater.
pub open spec fn order_with(order: Seq<int>, texts: Seq<Seq<char>>, i: int) -> Seq<int>
    decreases order.len(),
{
    if order.len() == 0 || !text_lt(texts[i], texts[order.last()]) {
        order.push(i)
    } else {
        order_with(order.drop_last(), texts, i).push(order.last())
    }
}

/// The indices of the first `n` texts, the least first; those that are equal stay in their order.
pub open spec fn text_order(texts: Seq<Seq<char>>, n: int) -> Seq<int>
    decreases n,
{
    if n <= 0 {
        Seq::empty()
    } else {
        order_with(text_order(texts, n - 1), texts, n - 1)
    }
}

/// Whether an order has the least first, keeps those that are equal in their order, and holds no
/// index from `n` on.
pub open spec fn is_text_order(order: Seq<int>, texts: Seq<Seq<char>>, n: int) -> bool {
    &&& forall|a: int| 0 <= a < order.len() ==> 0 <= (#[trigger] order[a]) < n
    &&& forall|a: int, b: int|
        0 <= a < b < order.len() ==> !text_lt(
            texts[#[trigger] order[b]],
            texts[#[trigger] order[a]],
        ) && (text_lt(texts[order[a]], texts[order[b]]) || order[a] < order[b])
}

proof fn lemma_not_lt_transitive(a: Seq<char>, b: Seq<char>, c: Seq<char>)
    requires
        !text_lt(b, a),
        !text_lt(c, b),
    ensures
        !text_lt(c, a),
{
    lemma_lt_total(a, b);
    lemma_lt_total(b, c);
    lemma_lt_irreflexive(a);
    if text_lt(c, a) {
        if a == b {
        } else if b == c {
        } else {
            lemma_lt_transitive(a, b, c);
            lemma_lt_transitive(a, c, a);
        }
    }
}

proof fn lemma_order_with(order: Seq<int>, texts: Seq<Seq<char>>, i: int)
    requires
        is_text_order(order, texts, i),
        i >= 0,
    ensures
        is_text_order(order_with(order, texts, i), texts, i + 1),
        order_with(order, texts, i).len() == order.len() + 1,
        forall|x: int|
            #[trigger] order_with(order, texts, i).contains(x) <==> x == i || order.contains(x),
    decreases order.len(),
{
    let r = order_with(order, texts, i);
    if order.len() == 0 || !text_lt(texts[i], texts[order.last()]) {
        assert(r =~= order.push(i));
        assert forall|a: int, b: int| 0 <= a < b < r.len() implies !text_lt(
            texts[#[trigger] r[b]],
            texts[#[trigger] r[a]],
        ) && (text_lt(texts[r[a]], texts[r[b]]) || r[a] < r[b]) by {
            assert(r[a] == order[a]);
            if b < order.len() {
                assert(r[b] == order[b]);
            } else if a < order.len() - 1 {
                assert(!text_lt(texts[order[order.len() - 1]], texts[order[a]]));
                lemma_not_lt_transitive(texts[order[a]], texts[order.last()], texts[i]);
            }
        }
        assert forall|x: int| #[trigger] r.contains(x) <==> x == i || order.contains(x) by {
            if order.contains(x) {
                let k = choose|k: int| 0 <= k < order.len() && order[k] == x;
                assert(r[k] == x);
            }
            assert(r[order.len() as int] == i);
        }
    } else {
        let rest = order.drop_last();
        assert(forall|a: int| 0 <= a < rest.len() ==> #[trigger] rest[a] == order[a]);
        lemma_order_with(rest, texts, i);
        let q = order_with(rest, texts, i);
        let last = order.last();
        assert(r =~= q.push(last));
        assert(order[order.len() - 1] == last);
        lemma_lt_irreflexive(texts[i]);
        if text_lt(texts[last], texts[i]) {
            lemma_lt_transitive(texts[i], texts[last], texts[i]);
        }
        assert forall|a: int, b: int| 0 <= a < b < r.len() implies !text_lt(
            texts[#[trigger] r[b]],
            texts[#[trigger] r[a]],
        ) && (text_lt(texts[r[a]], texts[r[b]]) || r[a] < r[b]) by {
            assert(r[a] == q[a]);
            if b < q.len() {
                assert(r[b] == q[b]);
            } else {
                assert(q.contains(q[a]));
                if q[a] != i {
                    let k = choose|k: int| 0 <= k < rest.len() && rest[k] == q[a];
                    assert(order[k] == q[a]);
                }
            }
        }
        assert forall|a: int| 0 <= a < r.len() implies 0 <= (#[trigger] r[a]) < i + 1 by {
            if a < q.len() {
                assert(r[a] == q[a]);
            }
        }
        assert forall|x: int| #[trigger] r.contains(x) <==> x == i || order.contains(x) by {
            if r.contains(x) {
                let k = choose|k: int| 0 <= k < r.len() && r[k] == x;
                if k < q.len() {
                    assert(q[k] == x);
                    assert(q.contains(x));
                    if x != i {
                        let m = choose|m: int| 0 <= m < rest.len() && rest[m] == x;
                        assert(order[m] == x);
                    }
                }
            }
            if order.contains(x) {
                let k = choose|k: int| 0 <= k < order.len() && order[k] == x;
                if k < rest.len() {
                    assert(rest[k] == x);
                    assert(q.contains(x));
                    let m = choose|m: int| 0 <= m < q.len() && q[m] == x;
                    assert(r[m] == x);
                } else {
                    assert(r[q.len() as int] == x);
                }
            }
            if x == i {
                assert(q.contains(i));
                let m = choose|m: int| 0 <= m < q.len() && q[m] == i;
                assert(r[m] == i);
            }
        }
    }
}

/// The order has the least first, keeps those that are equal in their order, and holds every
/// index once.
pub proof fn law_text_order(texts: Seq<Seq<char>>, n: int)
    requires
        0 <= n <= texts.len(),
    ensures
        is_text_order(text_order(texts, n), texts, n),
        text_order(texts, n).len() == n,
        forall|x: int| 0 <= x < n ==> #[trigger] text_order(texts, n).contains(x),
    decreases n,
{
    if n > 0 {
        law_text_order(texts, n - 1);
        let before = text_order(texts, n - 1);
        lemma_order_with(before, texts, n - 1);
        assert forall|x: int| 0 <= x < n implies #[trigger] text_order(texts, n).contains(x) by {
            if x < n - 1 {
                assert(before.contains(x));
            }
        }
    }
}

/// Puts the indices of texts in order, the least first.
pub fn order_texts(texts: &Vec<String>) -> (r: Vec<usize>)
    ensures
        order_view(r@) == text_order(views(texts@), texts@.len() as int),
        r@.len() == texts@.len(),
        forall|k: int| 0 <= k < r@.len() ==> (#[trigger] r@[k]) < texts@.len(),
{
    let ghost all = views(texts@);
    let mut out: Vec<usize> = Vec::new();
    let mut i: usize = 0;
    assert(order_view(out@) =~= Seq::empty());
    while i < texts.len()
        invariant
            i <= texts@.len(),
            all == views(texts@),
            order_view(out@) == text_order(all, i as int),
        decreases texts.len() - i,
    {
        proof {
            law_text_order(all, i as int);
        }
        put_ordered(&mut out, texts, i);
        i += 1;
    }
    proof {
        law_text_order(all, i as int);
        assert(order_view(out@).len() == out@.len());
        assert forall|k: int| 0 <= k < out@.len() implies (#[trigger] out@[k]) < texts@.len() by {
            assert(order_view(out@)[k] == out@[k]);
        }
    }
    out
}

fn put_ordered(v: &mut Vec<usize>, texts: &Vec<String>, i: usize)
    requires
        i < texts@.len(),
        is_text_order(order_view(old(v)@), views(texts@), i as int),
    ensures
        order_view(final(v)@) == order_with(order_view(old(v)@), views(texts@), i as int),
{
    let ghost all = order_view(v@);
    let ghost ks = views(texts@);
    let ghost given = v@;
    let mut k: usize = v.len();
    assert(all.take(k as int) =~= all);
    assert(order_with(all, ks, i as int) + all.skip(k as int) =~= order_with(all, ks, i as int));
    assert forall|m: int| 0 <= m < v@.len() implies (#[trigger] v@[m]) < texts@.len() by {
        assert(all[m] == v@[m]);
    }
    assert(ks[i as int] == texts@[i as int]@);
    while k > 0 && less(texts[i].as_str(), texts[v[k - 1]].as_str())
        invariant
            k <= v@.len(),
            v@ == given,
            i < texts@.len(),
            ks == views(texts@),
            ks[i as int] == texts@[i as int]@,
            forall|m: int| 0 <= m < v@.len() ==> (#[trigger] v@[m]) < texts@.len(),
            all == order_view(given),
            order_with(all.take(k as int), ks, i as int) + all.skip(k as int) == order_with(
                all,
                ks,
                i as int,
            ),
        decreases k,
    {
        let ghost head = all.take(k as int);
        assert(head.drop_last() =~= all.take(k - 1));
        assert(all[k - 1] == v@[k - 1]);
        assert(head.last() == all[k - 1]);
        assert(ks[all[k - 1]] == texts@[v@[k - 1] as int]@);
        assert(order_with(all.take(k - 1), ks, i as int) + all.skip(k - 1) =~= order_with(
            head,
            ks,
            i as int,
        ) + all.skip(k as int));
        k -= 1;
    }
    proof {
        let head = all.take(k as int);
        if k > 0 {
            assert(all[k - 1] == v@[k - 1]);
            assert(head.last() == all[k - 1]);
            assert(ks[all[k - 1]] == texts@[v@[k - 1] as int]@);
        }
        assert(order_with(head, ks, i as int) == head.push(i as int));
    }
    v.insert(k, i);
    assert(order_view(v@) =~= all.take(k as int).push(i as int) + all.skip(k as int));
}

} // verus!
