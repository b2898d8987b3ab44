//! What is printed of a funnel.

use crate::funnel::print::{cells_of, columns, kill_place_of, FunnelRow};
use crate::strs::dec;
use vstd::prelude::*;

verus! {

/// Every column of a funnel shows what it is named for; a name is cut to its first 32 characters.
pub proof fn law_columns_show_what_they_name(r: FunnelRow)
    ensures
        cells_of(r).len() == columns().len(),
        columns().index_of("id"@) == 0 && cells_of(r)[0] == r.id@,
        columns()[1] == "name"@ && cells_of(r)[1].is_prefix_of(r.name@) && cells_of(r)[1].len() == (
        if r.name@.len() < 32 {
            r.name@.len()
        } else {
            32
        }),
        columns()[2] == "spend"@ && cells_of(r)[2] == dec(r.spend as nat),
        columns()[3] == "m"@ && cells_of(r)[3] == dec(r.m as nat),
        columns()[4] == "cpl"@ && (r.cpl matches Some(n) ==> cells_of(r)[4] == dec(n as nat)) && (
        r.cpl is None ==> cells_of(r)[4] == "-"@),
        columns()[5] == "l"@ && cells_of(r)[5] == dec(r.l as nat),
        columns()[6] == "q"@ && cells_of(r)[6] == dec(r.q as nat),
        columns()[7] == "v"@ && cells_of(r)[7] == dec(r.v as nat),
        columns()[8] == "rs_per_q"@ && (r.rs_per_q matches Some(n) ==> cells_of(r)[8] == dec(
            n as nat,
        )) && (r.rs_per_q is None ==> cells_of(r)[8] == "-"@),
        columns()[9] == "l_to_q"@ && (r.l_to_q matches Some(t) ==> cells_of(r)[9] == t@) && (
        r.l_to_q is None ==> cells_of(r)[9] == "-"@),
        columns()[10] == "kill_mult"@ && cells_of(r)[10] == r.kill_mult@,
        columns()[11] == "kill"@ && (cells_of(r)[11] == "true"@ <==> r.kill),
        columns()[12] == "sufficient"@ && (cells_of(r)[12] == "true"@ <==> r.sufficient),
        columns()[13] == "immature"@ && (cells_of(r)[13] == "true"@ <==> r.immature),
        columns()[14] == "learning"@ && cells_of(r)[14] == r.learning@,
{
    reveal_strlit("true");
    reveal_strlit("false");
    assert("true"@.len() == 4 && "false"@.len() == 5);
    let n = columns();
    assert(n[0] == "id"@);
    assert(cells_of(r)[1] =~= r.name@.subrange(0, cells_of(r)[1].len() as int));
    reveal_strlit("id");
    reveal_strlit("name");
    reveal_strlit("spend");
    reveal_strlit("m");
    reveal_strlit("cpl");
    reveal_strlit("l");
    reveal_strlit("q");
    reveal_strlit("v");
    reveal_strlit("rs_per_q");
    reveal_strlit("l_to_q");
    reveal_strlit("kill_mult");
    reveal_strlit("kill");
    reveal_strlit("sufficient");
    reveal_strlit("immature");
    reveal_strlit("learning");
    assert forall|i: int| 0 < i < n.len() implies #[trigger] n[i] != "id"@ by {
        assert(n[i].len() != 2);
    }
    n.index_of_first_ensures("id"@);
}

/// There are kills for none, one and two qualified leads, and for no more.
pub proof fn law_kills_are_for_few_qualified(q: u64)
    ensures
        kill_place_of(q) is Some <==> q < 3,
        kill_place_of(q) matches Some(i) ==> i == q,
{
}

} // verus!
