//! What is printed of the brief.

use crate::brief::print::{
    best_line, brief_cells, brief_columns, comma_of, debt_suffix, grouped, opt_required,
    required_line, Feasibility, ProductRow,
};
use crate::strs::{dec, joined};
use vstd::prelude::*;

verus! {

/// Every column of the brief shows what it is named for.
pub proof fn law_columns_show_what_they_name(r: ProductRow, c: int)
    requires
        0 <= c < brief_columns().len(),
    ensures
        brief_cells(r).len() == brief_columns().len(),
        brief_columns()[c] == "product"@ ==> brief_cells(r)[c] == r.product@,
        brief_columns()[c] == "spend_per_day"@ ==> brief_cells(r)[c] == dec(r.spend_per_day as nat),
        brief_columns()[c] == "m7d"@ ==> brief_cells(r)[c] == dec(r.m7d as nat),
        brief_columns()[c] == "l7d"@ ==> brief_cells(r)[c] == dec(r.l7d as nat),
        brief_columns()[c] == "q7d"@ ==> brief_cells(r)[c] == dec(r.q7d as nat),
        brief_columns()[c] == "q_per_day"@ ==> brief_cells(r)[c] == r.q_per_day@,
        brief_columns()[c] == "rs_per_q"@ ==> (r.rs_per_q matches Some(n) ==> brief_cells(r)[c]
            == dec(n as nat)),
        brief_columns()[c] == "l_to_q"@ ==> (r.l_to_q matches Some(t) ==> brief_cells(r)[c] == t@),
        brief_columns()[c] == "goal"@ ==> brief_cells(r)[c] == r.goal@,
        brief_columns()[c] == "gap"@ ==> brief_cells(r)[c] == r.gap@,
        brief_columns()[c] == "q_last7_by_day"@ ==> brief_cells(r)[c] == r.trend@,
        brief_columns().contains("product"@) && brief_columns().contains("spend_per_day"@)
            && brief_columns().contains("m7d"@) && brief_columns().contains("l7d"@)
            && brief_columns().contains("q7d"@) && brief_columns().contains("q_per_day"@)
            && brief_columns().contains("rs_per_q"@) && brief_columns().contains("l_to_q"@)
            && brief_columns().contains("goal"@) && brief_columns().contains("gap"@)
            && brief_columns().contains("q_last7_by_day"@),
{
    reveal_strlit("product");
    reveal_strlit("spend_per_day");
    reveal_strlit("m7d");
    reveal_strlit("l7d");
    reveal_strlit("q7d");
    reveal_strlit("q_per_day");
    reveal_strlit("rs_per_q");
    reveal_strlit("l_to_q");
    reveal_strlit("goal");
    reveal_strlit("gap");
    reveal_strlit("q_last7_by_day");
    let n = brief_columns();
    assert("product"@.len() == 7 && "spend_per_day"@.len() == 13 && "q_per_day"@.len() == 9
        && "rs_per_q"@.len() == 8 && "l_to_q"@.len() == 6 && "goal"@.len() == 4
        && "q_last7_by_day"@.len() == 14);
    assert("m7d"@.len() == 3 && "l7d"@.len() == 3 && "q7d"@.len() == 3 && "gap"@.len() == 3);
    assert("m7d"@[0] == 'm' && "l7d"@[0] == 'l' && "q7d"@[0] == 'q' && "gap"@[0] == 'g');
    assert(n[0] == "product"@ && n[1] == "spend_per_day"@ && n[2] == "m7d"@ && n[3] == "l7d"@
        && n[4] == "q7d"@ && n[5] == "q_per_day"@ && n[6] == "rs_per_q"@ && n[7] == "l_to_q"@
        && n[8] == "goal"@ && n[9] == "gap"@ && n[10] == "q_last7_by_day"@);
}

/// Digits are put into groups of three from the end, with a comma ahead of each but the first. A
/// number below nothing has its sign ahead.
pub proof fn law_digits_are_in_groups_of_three(ahead: Seq<char>, three: Seq<char>, n: nat)
    requires
        three.len() == 3,
    ensures
        ahead.len() > 0 ==> grouped(ahead + three) == grouped(ahead) + ","@ + three,
        ahead.len() <= 3 ==> grouped(ahead) == ahead,
        comma_of(n as int) == grouped(dec(n)),
        n > 0 ==> comma_of(-n) == "-"@ + grouped(dec(n)),
{
    let s = ahead + three;
    assert(s.take(s.len() - 3) =~= ahead);
    assert(s.skip(s.len() - 3) =~= three);
}

/// What a goal takes is told with the money a day and how many times that is what is spent; the
/// best price is told only where there is one.
pub proof fn law_required_spend_is_told(f: Feasibility, head: Seq<char>, money: u64, times: String)
    ensures
        required_line(head, None).len() == 0,
        required_line(head, Some((money, times@))) == seq![
            head + "Rs."@ + grouped(dec(money as nat)) + "/day ("@ + times@ + "x today)"@,
        ],
        f.best_rpq is None ==> best_line(f).len() == 0,
        f.required_at_best is None ==> best_line(f).len() == 0,
        f.best_rpq is Some && f.required_at_best is Some ==> best_line(f).len() == 1,
        opt_required(Some((money, times))) == Some((money, times@)),
{
}

/// The debts are named in brackets, where there are some.
pub proof fn law_debts_are_named(debt: Seq<Seq<char>>)
    ensures
        debt_suffix(Seq::empty()).len() == 0,
        debt.len() > 0 ==> debt_suffix(debt) == " ("@ + joined(debt, ", "@) + ")"@,
{
}

} // verus!
