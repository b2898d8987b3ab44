//! The funnel as a table.

use crate::funnel::FunnelGroup;
use crate::sets::lists_view;
use crate::strs::{
    chars_of, dec, decimal, end_lines, joined, push_text, repeat, repeated, rtrim, slice_text,
    text_lines, trim_end, views,
};
use crate::table::{filled, line, measure_all, nats, text_width, width_of, widths_of};
use vstd::prelude::*;

pub mod laws;

verus! {

/// One row of the table. A number that is no integer is kept as its text.
#[derive(Debug)]
pub struct FunnelRow {
    pub id: String,
    pub name: String,
    pub spend: u64,
    pub m: u64,
    pub l: u64,
    pub q: u64,
    pub v: u64,
    pub b: u64,
    pub cpl: Option<u64>,
    pub rs_per_q: Option<u64>,
    pub l_to_q: Option<String>,
    pub kill_mult: String,
    pub kill: bool,
    pub sufficient: bool,
    pub immature: bool,
    pub learning: String,
}

/// What the money spent on a group says: amounts and rates as they are shown, and how it compares.
/// What would be divided by a count of none is not looked at.
#[derive(Debug)]
pub struct FunnelMoney {
    pub spend: u64,
    pub cpl: u64,
    pub rs_per_q: u64,
    pub l_to_q: String,
    pub kill_mult: String,
    /// Whether the money reaches what the table of kills says for so many qualified leads.
    pub over_table: bool,
    /// Whether so much was spent that the group can be judged.
    pub spent_enough: bool,
}

/// The row of the table of kills for a count of qualified leads, where it has one.
pub open spec fn kill_place_of(q: u64) -> Option<usize> {
    if q <= 2 {
        Some(q as usize)
    } else {
        None
    }
}

pub fn kill_place(q: u64) -> (r: Option<usize>)
    ensures
        r == kill_place_of(q),
{
    if q <= 2 {
        Some(q as usize)
    } else {
        None
    }
}

/// The row of a group: a rate is there where its divisor is not zero, a kill takes a count of
/// qualified leads that the table has, and what is sufficient takes three leads.
pub fn funnel_row(g: FunnelGroup, f: FunnelMoney) -> (r: FunnelRow)
    ensures
        r == (FunnelRow {
            id: g.id,
            name: g.name,
            spend: f.spend,
            m: g.m,
            l: g.l,
            q: g.q,
            v: g.v,
            b: g.b,
            cpl: if g.m > 0 {
                Some(f.cpl)
            } else {
                None
            },
            rs_per_q: if g.q > 0 {
                Some(f.rs_per_q)
            } else {
                None
            },
            l_to_q: if g.l > 0 {
                Some(f.l_to_q)
            } else {
                None
            },
            kill_mult: f.kill_mult,
            kill: kill_place_of(g.q) is Some && f.over_table,
            sufficient: f.spent_enough && g.m >= 3,
            immature: g.immature,
            learning: g.learning,
        }),
{
    let kill = kill_place(g.q).is_some() && f.over_table;
    FunnelRow {
        id: g.id,
        name: g.name,
        spend: f.spend,
        m: g.m,
        l: g.l,
        q: g.q,
        v: g.v,
        b: g.b,
        cpl: if g.m > 0 {
            Some(f.cpl)
        } else {
            None
        },
        rs_per_q: if g.q > 0 {
            Some(f.rs_per_q)
        } else {
            None
        },
        l_to_q: if g.l > 0 {
            Some(f.l_to_q)
        } else {
            None
        },
        kill_mult: f.kill_mult,
        kill,
        sufficient: f.spent_enough && g.m >= 3,
        immature: g.immature,
        learning: g.learning,
    }
}

pub open spec fn columns() -> Seq<Seq<char>> {
    seq![
        "id"@,
        "name"@,
        "spend"@,
        "m"@,
        "cpl"@,
        "l"@,
        "q"@,
        "v"@,
        "rs_per_q"@,
        "l_to_q"@,
        "kill_mult"@,
        "kill"@,
        "sufficient"@,
        "immature"@,
        "learning"@,
    ]
}

/// A number, or a dash where there is none.
pub open spec fn opt_dec(o: Option<u64>) -> Seq<char> {
    match o {
        Some(n) => dec(n as nat),
        None => "-"@,
    }
}

pub open spec fn flag_text(b: bool) -> Seq<char> {
    if b {
        "true"@
    } else {
        "false"@
    }
}

pub open spec fn first_chars(s: Seq<char>, n: int) -> Seq<char> {
    if s.len() <= n {
        s
    } else {
        s.take(n)
    }
}

/// The cells of a row, in the order of the columns.
pub open spec fn cells_of(r: FunnelRow) -> Seq<Seq<char>> {
    seq![
        r.id@,
        first_chars(r.name@, 32),
        dec(r.spend as nat),
        dec(r.m as nat),
        opt_dec(r.cpl),
        dec(r.l as nat),
        dec(r.q as nat),
        dec(r.v as nat),
        opt_dec(r.rs_per_q),
        match r.l_to_q {
            Some(t) => t@,
            None => "-"@,
        },
        r.kill_mult@,
        flag_text(r.kill),
        flag_text(r.sufficient),
        flag_text(r.immature),
        r.learning@,
    ]
}

pub open spec fn all_cells(rows: Seq<FunnelRow>) -> Seq<Seq<Seq<char>>> {
    rows.map_values(|r: FunnelRow| cells_of(r))
}

fn opt_text(o: Option<u64>) -> (r: String)
    ensures
        r@ == opt_dec(o),
{
    match o {
        Some(n) => decimal(n),
        None => "-".to_owned(),
    }
}

fn flag(b: bool) -> (r: String)
    ensures
        r@ == flag_text(b),
{
    if b {
        "true".to_owned()
    } else {
        "false".to_owned()
    }
}

fn first(s: &str, n: usize) -> (r: String)
    ensures
        r@ == first_chars(s@, n as int),
{
    let v = chars_of(s);
    if v.len() <= n {
        s.to_owned()
    } else {
        let t = slice_text(&v, 0, n);
        assert(t@ =~= s@.take(n as int));
        t
    }
}

fn row_cells(r: &FunnelRow) -> (v: Vec<String>)
    ensures
        views(v@) == cells_of(*r),
{
    let mut out: Vec<String> = Vec::new();
    push_text(&mut out, r.id.clone());
    push_text(&mut out, first(r.name.as_str(), 32));
    push_text(&mut out, decimal(r.spend));
    push_text(&mut out, decimal(r.m));
    push_text(&mut out, opt_text(r.cpl));
    push_text(&mut out, decimal(r.l));
    push_text(&mut out, decimal(r.q));
    push_text(&mut out, decimal(r.v));
    push_text(&mut out, opt_text(r.rs_per_q));
    push_text(
        &mut out,
        match &r.l_to_q {
            Some(t) => t.clone(),
            None => "-".to_owned(),
        },
    );
    push_text(&mut out, r.kill_mult.clone());
    push_text(&mut out, flag(r.kill));
    push_text(&mut out, flag(r.sufficient));
    push_text(&mut out, flag(r.immature));
    push_text(&mut out, r.learning.clone());
    assert(views(out@) =~= cells_of(*r));
    out
}

fn heads() -> (v: Vec<String>)
    ensures
        views(v@) == columns(),
{
    let mut out: Vec<String> = Vec::new();
    push_text(&mut out, "id".to_owned());
    push_text(&mut out, "name".to_owned());
    push_text(&mut out, "spend".to_owned());
    push_text(&mut out, "m".to_owned());
    push_text(&mut out, "cpl".to_owned());
    push_text(&mut out, "l".to_owned());
    push_text(&mut out, "q".to_owned());
    push_text(&mut out, "v".to_owned());
    push_text(&mut out, "rs_per_q".to_owned());
    push_text(&mut out, "l_to_q".to_owned());
    push_text(&mut out, "kill_mult".to_owned());
    push_text(&mut out, "kill".to_owned());
    push_text(&mut out, "sufficient".to_owned());
    push_text(&mut out, "immature".to_owned());
    push_text(&mut out, "learning".to_owned());
    assert(views(out@) =~= columns());
    out
}

/// The lines of the rows, without the spaces at their ends.
pub open spec fn row_lines(cells: Seq<Seq<Seq<char>>>, widths: Seq<nat>) -> Seq<Seq<char>> {
    cells.map_values(|c: Seq<Seq<char>>| trim_end(joined(filled(c, widths, false), "  "@)))
}

/// The table: its heads, a rule below them, and a line for each row.
pub open spec fn table_of(rows: Seq<FunnelRow>) -> Seq<char> {
    if rows.len() == 0 {
        "(no rows)\n"@
    } else {
        let widths = widths_of(columns(), all_cells(rows));
        let head = joined(filled(columns(), widths, false), "  "@);
        text_lines(
            seq![head, repeated("-"@, width_of(head))] + row_lines(all_cells(rows), widths),
        )
    }
}

/// Prints rows as a table.
pub fn table(rows: &Vec<FunnelRow>) -> (r: String)
    ensures
        r@ == table_of(rows@),
{
    if rows.len() == 0 {
        return "(no rows)\n".to_owned();
    }
    let ghost all = all_cells(rows@);
    let mut cells: Vec<Vec<String>> = Vec::new();
    let mut i: usize = 0;
    assert(lists_view(cells@) =~= all.take(0));
    while i < rows.len()
        invariant
            i <= rows@.len(),
            all == all_cells(rows@),
            lists_view(cells@) == all.take(i as int),
        decreases rows.len() - i,
    {
        let c = row_cells(&rows[i]);
        assert(all[i as int] == cells_of(rows@[i as int]));
        assert(lists_view(cells@.push(c)) =~= lists_view(cells@).push(views(c@)));
        assert(all.take(i + 1) =~= all.take(i as int).push(views(c@)));
        cells.push(c);
        i += 1;
    }
    assert(all.take(i as int) =~= all);
    let h = heads();
    let widths = measure_all(&h, &cells);
    let ghost w = nats(widths@);
    let head = line(&h, &widths, false);
    let mut out: Vec<String> = Vec::new();
    let rule = repeat("-", text_width(head.as_str()));
    let ghost top = seq![head@, rule@];
    push_text(&mut out, head);
    push_text(&mut out, rule);
    assert(views(out@) =~= top);
    let ghost body = row_lines(all, w);
    let mut k: usize = 0;
    assert(top + body.take(0) =~= top);
    while k < cells.len()
        invariant
            k <= cells@.len(),
            lists_view(cells@) == all,
            w == nats(widths@),
            body == row_lines(all, w),
            views(out@) == top + body.take(k as int),
        decreases cells.len() - k,
    {
        assert(all[k as int] == views(cells@[k as int]@));
        push_text(&mut out, rtrim(line(&cells[k], &widths, false).as_str()));
        assert(views(out@) =~= top + body.take(k + 1));
        k += 1;
    }
    assert(lists_view(cells@).len() == cells@.len());
    assert(body.take(k as int) =~= body);
    end_lines(&out)
}

} // verus!
