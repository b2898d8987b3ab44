//! The products of a workspace, and how a typed name finds one.

use crate::strs::{
    cat4, contains, has_text, join, joined, lemma_views_push, lowercase, lowercase_of, same, trim,
    trimmed, views,
};
use vstd::prelude::*;

pub mod laws;

verus! {

#[derive(Debug)]
pub struct Product {
    pub name: String,
    pub ad_account: String,
}

pub open spec fn names_of(p: Seq<Product>) -> Seq<Seq<char>> {
    p.map_values(|q: Product| q.name@)
}

/// How many of the names `0..n` satisfy a condition.
pub open spec fn count_where(names: Seq<Seq<char>>, f: spec_fn(Seq<char>) -> bool, n: int) -> nat
    decreases n,
{
    if n <= 0 {
        0
    } else {
        count_where(names, f, n - 1) + if f(names[n - 1]) {
            1nat
        } else {
            0
        }
    }
}

pub open spec fn is_same_but_case(want: Seq<char>) -> spec_fn(Seq<char>) -> bool {
    |n: Seq<char>| lowercase_of(n) == lowercase_of(want)
}

pub open spec fn holds(want: Seq<char>) -> spec_fn(Seq<char>) -> bool {
    |n: Seq<char>| has_text(lowercase_of(n), lowercase_of(want))
}

/// The message for a name that finds no product, or more than one.
pub open spec fn unknown_text(want: Seq<char>, names: Seq<Seq<char>>) -> Seq<char> {
    "unknown product \""@ + want + "\" - configured: "@ + joined(names, ", "@)
}

/// Whether a name is the one that a typed text means: the text itself; else the only one that is
/// the text but for the case; else the only one that holds it.
pub open spec fn is_meant(name: Seq<char>, want: Seq<char>, names: Seq<Seq<char>>) -> bool {
    let n = names.len() as int;
    if names.contains(want) {
        name == want
    } else if count_where(names, is_same_but_case(want), n) == 1 {
        is_same_but_case(want)(name)
    } else {
        want.len() > 0 && count_where(names, holds(want), n) == 1 && holds(want)(name)
    }
}

/// Whether a typed text means a product.
pub open spec fn means_one(want: Seq<char>, names: Seq<Seq<char>>) -> bool {
    let n = names.len() as int;
    ||| names.contains(want)
    ||| count_where(names, is_same_but_case(want), n) == 1
    ||| want.len() > 0 && count_where(names, holds(want), n) == 1
}

/// Finds the product that a typed text means; white space around it does not count.
pub fn resolve_product<'a>(input: &str, products: &'a Vec<Product>) -> (r: Result<&'a str, String>)
    ensures
        ({
            let want = trimmed(input@);
            let names = names_of(products@);
            match r {
                Ok(name) => means_one(want, names) && is_meant(name@, want, names)
                    && names.contains(name@),
                Err(m) => !means_one(want, names) && m@ == unknown_text(want, names),
            }
        }),
{
    let want = trim(input);
    let lower = lowercase(want.as_str());
    let ghost names = names_of(products@);
    let mut exact: Option<usize> = None;
    let mut ci: usize = 0;
    let mut ci_at: usize = 0;
    let mut sub: usize = 0;
    let mut sub_at: usize = 0;
    let mut shown: Vec<String> = Vec::new();
    let mut i: usize = 0;
    assert(views(shown@) =~= names.take(0));
    while i < products.len()
        invariant
            i <= products@.len(),
            names == names_of(products@),
            lower@ == lowercase_of(want@),
            views(shown@) == names.take(i as int),
            ci <= i,
            sub <= i,
            match exact {
                Some(k) => k < i && names[k as int] == want@,
                None => forall|k: int| 0 <= k < i ==> names[k] != want@,
            },
            ci == count_where(names, is_same_but_case(want@), i as int),
            sub == count_where(names, holds(want@), i as int),
            ci > 0 ==> ci_at < i && is_same_but_case(want@)(names[ci_at as int]),
            sub > 0 ==> sub_at < i && holds(want@)(names[sub_at as int]),
        decreases products.len() - i,
    {
        assert(names[i as int] == products@[i as int].name@);
        let name = products[i].name.as_str();
        let l = lowercase(name);
        if exact.is_none() && same(name, want.as_str()) {
            exact = Some(i);
        }
        if same(l.as_str(), lower.as_str()) {
            ci += 1;
            ci_at = i;
        }
        if contains(l.as_str(), lower.as_str()) {
            sub += 1;
            sub_at = i;
        }
        let copy = products[i].name.clone();
        proof {
            lemma_views_push(shown@, copy);
            assert(names.take(i + 1) =~= names.take(i as int).push(copy@));
        }
        shown.push(copy);
        i += 1;
    }
    assert(names.take(i as int) =~= names);
    match exact {
        Some(k) => {
            assert(names.contains(want@));
            assert(names[k as int] == products@[k as int].name@);
            return Ok(products[k].name.as_str());
        },
        None => {
            assert(!names.contains(want@));
        },
    }
    if ci == 1 {
        assert(names[ci_at as int] == products@[ci_at as int].name@);
        assert(names.contains(names[ci_at as int]));
        return Ok(products[ci_at].name.as_str());
    }
    if sub == 1 && !want.as_str().is_empty() {
        assert(names[sub_at as int] == products@[sub_at as int].name@);
        assert(names.contains(names[sub_at as int]));
        return Ok(products[sub_at].name.as_str());
    }
    Err(
        cat4(
            "unknown product \"",
            want.as_str(),
            "\" - configured: ",
            join(&shown, ", ").as_str(),
        ),
    )
}

proof fn lemma_count_one(
    names: Seq<Seq<char>>,
    f: spec_fn(Seq<char>) -> bool,
    n: int,
    a: int,
    b: int,
)
    requires
        0 <= a < n <= names.len(),
        0 <= b < n,
        f(names[a]),
        f(names[b]),
        count_where(names, f, n) == 1,
    ensures
        a == b,
    decreases n,
{
    if a != b {
        if a == n - 1 {
            lemma_count_some(names, f, n - 1, b);
        } else if b == n - 1 {
            lemma_count_some(names, f, n - 1, a);
        } else {
            lemma_count_some(names, f, n - 1, a);
            lemma_count_one(names, f, n - 1, a, b);
        }
    }
}

proof fn lemma_count_some(names: Seq<Seq<char>>, f: spec_fn(Seq<char>) -> bool, n: int, a: int)
    requires
        0 <= a < n <= names.len(),
        f(names[a]),
    ensures
        count_where(names, f, n) >= 1,
    decreases n,
{
    if a < n - 1 {
        lemma_count_some(names, f, n - 1, a);
    }
}

/// A typed text never means two products of different names.
pub proof fn law_one_name_is_meant(
    a: Seq<char>,
    b: Seq<char>,
    want: Seq<char>,
    names: Seq<Seq<char>>,
)
    requires
        names.contains(a),
        names.contains(b),
        is_meant(a, want, names),
        is_meant(b, want, names),
    ensures
        a == b,
{
    let i = choose|i: int| 0 <= i < names.len() && names[i] == a;
    let j = choose|j: int| 0 <= j < names.len() && names[j] == b;
    let n = names.len() as int;
    if !names.contains(want) {
        if count_where(names, is_same_but_case(want), n) == 1 {
            lemma_count_one(names, is_same_but_case(want), n, i, j);
        } else {
            lemma_count_one(names, holds(want), n, i, j);
        }
    }
}

} // verus!
