//! Which lines are read across targetings.

use crate::report::cross::{cross_line, cross_lines, CrossCard};
use vstd::prelude::*;

verus! {

/// A card is read across where it is in two targetings at least, has five leads elsewhere at least,
/// and is told to be concentrated.
pub proof fn law_cards_are_read_across(c: CrossCard)
    ensures
        cross_line(c) is Some <==> c.best is Some && c.targetings > 1 && c.rest_leads > 4
            && c.concentrated,
{
}

/// The lines are the first two of those that can be read.
pub proof fn law_two_lines_are_read(cards: Seq<CrossCard>)
    ensures
        ({
            let all = cards.filter(|c: CrossCard| cross_line(c) is Some).map_values(
                |c: CrossCard| cross_line(c)->0,
            );
            &&& cross_lines(cards).is_prefix_of(all)
            &&& cross_lines(cards).len() == if all.len() < 2 {
                all.len()
            } else {
                2
            }
        }),
    decreases cards.len(),
{
    reveal(Seq::filter);
    let reads = |c: CrossCard| cross_line(c) is Some;
    let line = |c: CrossCard| cross_line(c)->0;
    let all = cards.filter(reads).map_values(line);
    if cards.len() > 0 {
        let rest = cards.drop_last();
        law_two_lines_are_read(rest);
        let before = rest.filter(reads).map_values(line);
        let had = cross_lines(rest);
        assert(had =~= before.subrange(0, had.len() as int));
        if reads(cards.last()) {
            assert(all =~= before.push(line(cards.last())));
        }
    }
    assert(cross_lines(cards) =~= all.subrange(0, cross_lines(cards).len() as int));
}

} // verus!
