//! What the days before and the hits come to.

use crate::brief::history::{history_of, last_of, trend_of, HistoryRowV};
use crate::brief::qualified_in;
use crate::strs::joined;
use crate::window::Hit;
use vstd::prelude::*;

verus! {

/// The qualified hits are those that are, counted one by one.
pub proof fn law_qualified_hits_are_counted(hits: Seq<Hit>)
    ensures
        qualified_in(hits) == hits.filter(|h: Hit| h.qualified).len(),
    decreases hits.len(),
{
    reveal(Seq::filter);
    if hits.len() > 0 {
        law_qualified_hits_are_counted(hits.drop_last());
    }
}

/// Whether a row of the history names a product.
pub open spec fn names_product(row: Seq<Seq<char>>) -> bool {
    row.len() > 0 && row[0].len() > 0
}

/// The history has a day for every row that names a product, in their order: the product is the
/// first column, the number the third, and a row that is too short for a number has 0.
pub proof fn law_history_tells_its_rows(rows: Seq<Seq<Seq<char>>>)
    ensures
        ({
            let named = rows.filter(|row: Seq<Seq<char>>| names_product(row));
            let days = history_of(rows);
            &&& days.len() == named.len()
            &&& forall|i: int|
                0 <= i < days.len() ==> (#[trigger] days[i]).product == named[i][0] && (
                named[i].len() > 2 ==> days[i].qualified == named[i][2]) && (named[i].len() <= 2
                    ==> days[i].qualified == "0"@)
        }),
    decreases rows.len(),
{
    reveal(Seq::filter);
    if rows.len() > 0 {
        law_history_tells_its_rows(rows.drop_last());
    }
}

/// A trend holds the last numbers of its product, the oldest first, and no more of them than are
/// asked for.
pub proof fn law_trend_is_the_last_days(history: Seq<HistoryRowV>, product: Seq<char>, n: nat)
    ensures
        ({
            let all = history.filter(|h: HistoryRowV| h.product == product).map_values(
                |h: HistoryRowV| h.qualified,
            );
            let shown = last_of(history, product, n);
            &&& shown.is_suffix_of(all)
            &&& shown.len() == if all.len() < n {
                all.len()
            } else {
                n
            }
        }),
    decreases history.len(),
{
    reveal(Seq::filter);
    let of = |h: HistoryRowV| h.product == product;
    let number = |h: HistoryRowV| h.qualified;
    let all = history.filter(of).map_values(number);
    let shown = last_of(history, product, n);
    if history.len() > 0 && n > 0 {
        let rest = history.drop_last();
        let before = rest.filter(of).map_values(number);
        if of(history.last()) {
            law_trend_is_the_last_days(rest, product, (n - 1) as nat);
            assert(all =~= before.push(history.last().qualified));
            let had = last_of(rest, product, (n - 1) as nat);
            assert(had =~= before.subrange(before.len() - had.len(), before.len() as int));
            assert(shown =~= all.subrange(all.len() - shown.len(), all.len() as int));
        } else {
            law_trend_is_the_last_days(rest, product, n);
        }
    } else {
        assert(shown =~= all.subrange(all.len() as int, all.len() as int));
    }
}

/// A trend without a number is shown as a dash, one number as itself, and several with a space
/// between them.
pub proof fn law_trend_is_shown(parts: Seq<Seq<char>>, last: Seq<char>)
    ensures
        trend_of(Seq::empty()) == "-"@,
        trend_of(seq![last]) == last,
        parts.len() > 0 ==> trend_of(parts.push(last)) == trend_of(parts) + " "@ + last,
{
    reveal_with_fuel(joined, 2);
    assert(parts.push(last).drop_last() =~= parts);
    assert(seq![last].drop_last() =~= Seq::empty());
}

} // verus!
