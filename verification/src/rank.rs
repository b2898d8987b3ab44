//! Orders by numbers: the highest first, and those that are equal as they were.

use vstd::prelude::*;

pub mod laws;

verus! {

/// Whether a list of numbers is higher than another: at the first place at which they differ, or
/// where the other one ends before it.
pub open spec fn is_higher(a: Seq<u64>, b: Seq<u64>) -> bool
    decreases a.len(),
{
    if a.len() == 0 {
        false
    } else if b.len() == 0 {
        true
    } else if a[0] != b[0] {
        a[0] > b[0]
    } else {
        is_higher(a.drop_first(), b.drop_first())
    }
}

pub fn higher(a: &Vec<u64>, b: &Vec<u64>) -> (r: bool)
    ensures
        r == is_higher(a@, b@),
{
    let mut i: usize = 0;
    assert(a@.skip(0) =~= a@ && b@.skip(0) =~= b@);
    while i < a.len() && i < b.len()
        invariant
            i <= a@.len(),
            i <= b@.len(),
            is_higher(a@, b@) == is_higher(a@.skip(i as int), b@.skip(i as int)),
        decreases a.len() - i,
    {
        if a[i] != b[i] {
            return a[i] > b[i];
        }
        assert(a@.skip(i as int).drop_first() =~= a@.skip(i + 1));
        assert(b@.skip(i as int).drop_first() =~= b@.skip(i + 1));
        i += 1;
    }
    i < a.len()
}

proof fn lemma_higher_irreflexive(a: Seq<u64>)
    ensures
        !is_higher(a, a),
    decreases a.len(),
{
    if a.len() > 0 {
        lemma_higher_irreflexive(a.drop_first());
    }
}

proof fn lemma_not_higher_transitive(a: Seq<u64>, b: Seq<u64>, c: Seq<u64>)
    requires
        !is_higher(b, a),
        !is_higher(c, b),
    ensures
        !is_higher(c, a),
    decreases a.len(),
{
    if a.len() > 0 && b.len() > 0 && c.len() > 0 {
        if a[0] == b[0] && b[0] == c[0] {
            lemma_not_higher_transitive(a.drop_first(), b.drop_first(), c.drop_first());
        }
    }
}

proof fn lemma_higher_asymmetric(a: Seq<u64>, b: Seq<u64>)
    ensures
        is_higher(a, b) ==> !is_higher(b, a),
    decreases a.len(),
{
    if a.len() > 0 && b.len() > 0 {
        lemma_higher_asymmetric(a.drop_first(), b.drop_first());
    }
}

/// An order, the highest first, with one more put in, behind those that are not lower.
pub open spec fn ranked_with(order: Seq<int>, keys: Seq<Seq<u64>>, i: int) -> Seq<int>
    decreases order.len(),
{
    if order.len() == 0 || !is_higher(keys[i], keys[order.last()]) {
        order.push(i)
    } else {
        ranked_with(order.drop_last(), keys, i).push(order.last())
    }
}

/// The indices of the first `n` keys, the highest first; those that are equal stay in their order.
pub open spec fn ranked(keys: Seq<Seq<u64>>, n: int) -> Seq<int>
    decreases n,
{
    if n <= 0 {
        Seq::empty()
    } else {
        ranked_with(ranked(keys, n - 1), keys, n - 1)
    }
}

/// Whether an order has the highest first, keeps those that are equal in their order, and holds no
/// index from `n` on.
pub open spec fn is_ranked(order: Seq<int>, keys: Seq<Seq<u64>>, n: int) -> bool {
    &&& forall|a: int| 0 <= a < order.len() ==> 0 <= (#[trigger] order[a]) < n
    &&& forall|a: int, b: int|
        0 <= a < b < order.len() ==> !is_higher(
            keys[#[trigger] order[b]],
            keys[#[trigger] order[a]],
        ) && (is_higher(keys[order[a]], keys[order[b]]) || order[a] < order[b])
}

proof fn lemma_ranked_with(order: Seq<int>, keys: Seq<Seq<u64>>, i: int)
    requires
        is_ranked(order, keys, i),
        i >= 0,
    ensures
        is_ranked(ranked_with(order, keys, i), keys, i + 1),
        ranked_with(order, keys, i).len() == order.len() + 1,
        forall|x: int|
            #[trigger] ranked_with(order, keys, i).contains(x) <==> x == i || order.contains(x),
    decreases order.len(),
{
    let r = ranked_with(order, keys, i);
    if order.len() == 0 || !is_higher(keys[i], keys[order.last()]) {
        assert(r =~= order.push(i));
        assert forall|a: int, b: int| 0 <= a < b < r.len() implies !is_higher(
            keys[#[trigger] r[b]],
            keys[#[trigger] r[a]],
        ) && (is_higher(keys[r[a]], keys[r[b]]) || r[a] < r[b]) by {
            assert(r[a] == order[a]);
            if b < order.len() {
                assert(r[b] == order[b]);
            } else if a < order.len() - 1 {
                assert(!is_higher(keys[order[order.len() - 1]], keys[order[a]]));
                lemma_not_higher_transitive(keys[order[a]], keys[order.last()], keys[i]);
            }
        }
        assert forall|x: int| #[trigger] r.contains(x) <==> x == i || order.contains(x) by {
            if order.contains(x) {
                let k = choose|k: int| 0 <= k < order.len() && order[k] == x;
                assert(r[k] == x);
            }
            assert(r[order.len() as int] == i);
        }
    } else {
        let rest = order.drop_last();
        assert(forall|a: int| 0 <= a < rest.len() ==> #[trigger] rest[a] == order[a]);
        lemma_ranked_with(rest, keys, i);
        let q = ranked_with(rest, keys, i);
        let last = order.last();
        assert(r =~= q.push(last));
        assert(order[order.len() - 1] == last);
        lemma_higher_asymmetric(keys[i], keys[last]);
        assert forall|a: int, b: int| 0 <= a < b < r.len() implies !is_higher(
            keys[#[trigger] r[b]],
            keys[#[trigger] r[a]],
        ) && (is_higher(keys[r[a]], keys[r[b]]) || r[a] < r[b]) by {
            assert(r[a] == q[a]);
            if b < q.len() {
                assert(r[b] == q[b]);
            } else {
                assert(q.contains(q[a]));
                if q[a] != i {
                    let k = choose|k: int| 0 <= k < rest.len() && rest[k] == q[a];
                    assert(order[k] == q[a]);
                }
            }
        }
        assert forall|a: int| 0 <= a < r.len() implies 0 <= (#[trigger] r[a]) < i + 1 by {
            if a < q.len() {
                assert(r[a] == q[a]);
            }
        }
        assert forall|x: int| #[trigger] r.contains(x) <==> x == i || order.contains(x) by {
            if r.contains(x) {
                let k = choose|k: int| 0 <= k < r.len() && r[k] == x;
                if k < q.len() {
                    assert(q[k] == x);
                    assert(q.contains(x));
                    if x != i {
                        let m = choose|m: int| 0 <= m < rest.len() && rest[m] == x;
                        assert(order[m] == x);
                    }
                }
            }
            if order.contains(x) {
                let k = choose|k: int| 0 <= k < order.len() && order[k] == x;
                if k < rest.len() {
                    assert(rest[k] == x);
                    assert(q.contains(x));
                    let m = choose|m: int| 0 <= m < q.len() && q[m] == x;
                    assert(r[m] == x);
                } else {
                    assert(r[q.len() as int] == x);
                }
            }
            if x == i {
                assert(q.contains(i));
                let m = choose|m: int| 0 <= m < q.len() && q[m] == i;
                assert(r[m] == i);
            }
        }
    }
}

/// The order has the highest first, keeps those that are equal in their order, and holds every
/// index once.
pub proof fn law_ranked(keys: Seq<Seq<u64>>, n: int)
    requires
        0 <= n <= keys.len(),
    ensures
        is_ranked(ranked(keys, n), keys, n),
        ranked(keys, n).len() == n,
        forall|x: int| 0 <= x < n ==> #[trigger] ranked(keys, n).contains(x),
    decreases n,
{
    if n > 0 {
        law_ranked(keys, n - 1);
        let before = ranked(keys, n - 1);
        lemma_ranked_with(before, keys, n - 1);
        assert forall|x: int| 0 <= x < n implies #[trigger] ranked(keys, n).contains(x) by {
            if x < n - 1 {
                assert(before.contains(x));
            }
        }
    }
}

pub open spec fn keys_view(v: Seq<Vec<u64>>) -> Seq<Seq<u64>> {
    v.map_values(|k: Vec<u64>| k@)
}

pub open spec fn order_view(v: Seq<usize>) -> Seq<int> {
    v.map_values(|i: usize| i as int)
}

/// Puts the indices of keys in order, the highest first.
pub fn rank(keys: &Vec<Vec<u64>>) -> (r: Vec<usize>)
    ensures
        order_view(r@) == ranked(keys_view(keys@), keys@.len() as int),
        r@.len() == keys@.len(),
        forall|k: int| 0 <= k < r@.len() ==> (#[trigger] r@[k]) < keys@.len(),
{
    let ghost all = keys_view(keys@);
    let mut out: Vec<usize> = Vec::new();
    let mut i: usize = 0;
    assert(order_view(out@) =~= Seq::empty());
    while i < keys.len()
        invariant
            i <= keys@.len(),
            all == keys_view(keys@),
            order_view(out@) == ranked(all, i as int),
        decreases keys.len() - i,
    {
        proof {
            law_ranked(all, i as int);
        }
        put_ranked(&mut out, keys, i);
        i += 1;
    }
    proof {
        law_ranked(all, i as int);
        assert(order_view(out@).len() == out@.len());
        assert forall|k: int| 0 <= k < out@.len() implies (#[trigger] out@[k]) < keys@.len() by {
            assert(order_view(out@)[k] == out@[k]);
        }
    }
    out
}

fn put_ranked(v: &mut Vec<usize>, keys: &Vec<Vec<u64>>, i: usize)
    requires
        i < keys@.len(),
        is_ranked(order_view(old(v)@), keys_view(keys@), i as int),
    ensures
        order_view(final(v)@) == ranked_with(order_view(old(v)@), keys_view(keys@), i as int),
{
    let ghost all = order_view(v@);
    let ghost ks = keys_view(keys@);
    let ghost given = v@;
    let mut k: usize = v.len();
    assert(all.take(k as int) =~= all);
    assert(ranked_with(all, ks, i as int) + all.skip(k as int) =~= ranked_with(all, ks, i as int));
    assert forall|m: int| 0 <= m < v@.len() implies (#[trigger] v@[m]) < keys@.len() by {
        assert(all[m] == v@[m]);
    }
    assert(ks[i as int] == keys@[i as int]@);
    while k > 0 && higher(&keys[i], &keys[v[k - 1]])
        invariant
            k <= v@.len(),
            v@ == given,
            i < keys@.len(),
            ks == keys_view(keys@),
            ks[i as int] == keys@[i as int]@,
            forall|m: int| 0 <= m < v@.len() ==> (#[trigger] v@[m]) < keys@.len(),
            all == order_view(given),
            ranked_with(all.take(k as int), ks, i as int) + all.skip(k as int) == ranked_with(
                all,
                ks,
                i as int,
            ),
        decreases k,
    {
        let ghost head = all.take(k as int);
        assert(head.drop_last() =~= all.take(k - 1));
        assert(all[k - 1] == v@[k - 1]);
        assert(head.last() == all[k - 1]);
        assert(ks[all[k - 1]] == keys@[v@[k - 1] as int]@);
        assert(ranked_with(all.take(k - 1), ks, i as int) + all.skip(k - 1) =~= ranked_with(
            head,
            ks,
            i as int,
        ) + all.skip(k as int));
        k -= 1;
    }
    proof {
        let head = all.take(k as int);
        if k > 0 {
            assert(all[k - 1] == v@[k - 1]);
            assert(head.last() == all[k - 1]);
            assert(ks[all[k - 1]] == keys@[v@[k - 1] as int]@);
        }
        assert(ranked_with(head, ks, i as int) == head.push(i as int));
    }
    v.insert(k, i);
    assert(order_view(v@) =~= all.take(k as int).push(i as int) + all.skip(k as int));
}

} // verus!
