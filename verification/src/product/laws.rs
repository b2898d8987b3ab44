//! Which product a typed text means.

use crate::product::{count_where, holds, is_meant, is_same_but_case, means_one};
use crate::strs::{has_text, lowercase_of};
use vstd::prelude::*;

verus! {

proof fn lemma_count(names: Seq<Seq<char>>, f: spec_fn(Seq<char>) -> bool, n: int)
    requires
        0 <= n <= names.len(),
    ensures
        count_where(names, f, n) == names.take(n).filter(f).len(),
    decreases n,
{
    reveal(Seq::filter);
    if n > 0 {
        lemma_count(names, f, n - 1);
        assert(names.take(n).drop_last() =~= names.take(n - 1));
    }
}

/// A text that is the name of a product means that one. Else it means the only one that is the same
/// but for capital letters; and else the only one that holds it, letters aside.
pub proof fn law_names_are_meant(name: Seq<char>, want: Seq<char>, names: Seq<Seq<char>>)
    ensures
        ({
            let same = names.filter(|n: Seq<char>| lowercase_of(n) == lowercase_of(want)).len();
            let holding = names.filter(
                |n: Seq<char>| has_text(lowercase_of(n), lowercase_of(want)),
            ).len();
            &&& names.contains(want) ==> (is_meant(name, want, names) <==> name == want)
            &&& !names.contains(want) && same == 1 ==> (is_meant(name, want, names)
                <==> lowercase_of(name) == lowercase_of(want))
            &&& !names.contains(want) && same != 1 && holding == 1 && want.len() > 0 ==> (is_meant(
                name,
                want,
                names,
            ) <==> has_text(lowercase_of(name), lowercase_of(want)))
            &&& means_one(want, names) <==> names.contains(want) || same == 1 || (want.len() > 0
                && holding == 1)
        }),
{
    let n = names.len() as int;
    assert(names.take(n) =~= names);
    lemma_count(names, is_same_but_case(want), n);
    lemma_count(names, holds(want), n);
    assert(is_same_but_case(want) =~= (|n: Seq<char>| lowercase_of(n) == lowercase_of(want)));
    assert(holds(want) =~= (|n: Seq<char>| has_text(lowercase_of(n), lowercase_of(want))));
}

} // verus!
