//! Tables of fixed width. A column is as wide as its widest cell has bytes.

use crate::strs::{cat2, join, joined, left, pad_right, push_text, repeat, repeated, views};
use crate::sets::lists_view;
use crate::text::{byte_len, bytes_up_to};
use vstd::prelude::*;

pub mod laws;

verus! {

/// The number of bytes of a text, as far as a width goes.
pub open spec fn width_of(s: Seq<char>) -> nat {
    if byte_len(s) <= usize::MAX - 1 {
        byte_len(s)
    } else {
        usize::MAX as nat
    }
}

pub fn text_width(s: &str) -> (r: usize)
    ensures
        r == width_of(s@),
{
    bytes_up_to(s, usize::MAX - 1)
}

/// The width of the widest cell of a column, or of its head; a row without the column does not
/// count.
pub open spec fn column_width(head: Seq<char>, rows: Seq<Seq<Seq<char>>>, c: int) -> nat
    decreases rows.len(),
{
    if rows.len() == 0 {
        width_of(head)
    } else {
        let before = column_width(head, rows.drop_last(), c);
        if 0 <= c < rows.last().len() && width_of(rows.last()[c]) > before {
            width_of(rows.last()[c])
        } else {
            before
        }
    }
}

pub open spec fn widths_of(heads: Seq<Seq<char>>, rows: Seq<Seq<Seq<char>>>) -> Seq<nat> {
    Seq::new(heads.len(), |c: int| column_width(heads[c], rows, c))
}

pub open spec fn nats(v: Seq<usize>) -> Seq<nat> {
    v.map_values(|n: usize| n as nat)
}

fn measure(head: &str, rows: &Vec<Vec<String>>, c: usize) -> (r: usize)
    ensures
        r == column_width(head@, lists_view(rows@), c as int),
{
    let ghost all = lists_view(rows@);
    let mut w: usize = text_width(head);
    let mut i: usize = 0;
    assert(all.take(0) =~= Seq::empty());
    while i < rows.len()
        invariant
            i <= rows@.len(),
            all == lists_view(rows@),
            w == column_width(head@, all.take(i as int), c as int),
        decreases rows.len() - i,
    {
        assert(all.take(i + 1).drop_last() =~= all.take(i as int));
        assert(all[i as int] == views(rows@[i as int]@));
        assert(views(rows@[i as int]@).len() == rows@[i as int]@.len());
        if c < rows[i].len() {
            assert(views(rows@[i as int]@)[c as int] == rows@[i as int]@[c as int]@);
            let n: usize = text_width(rows[i][c].as_str());
            if n > w {
                w = n;
            }
        }
        i += 1;
    }
    assert(all.take(i as int) =~= all);
    w
}

/// Measures the columns of a table.
pub fn measure_all(heads: &Vec<String>, rows: &Vec<Vec<String>>) -> (r: Vec<usize>)
    ensures
        nats(r@) == widths_of(views(heads@), lists_view(rows@)),
        r@.len() == heads@.len(),
{
    let ghost all = widths_of(views(heads@), lists_view(rows@));
    let mut out: Vec<usize> = Vec::new();
    let mut c: usize = 0;
    assert(nats(out@) =~= all.take(0));
    while c < heads.len()
        invariant
            c <= heads@.len(),
            out@.len() == c,
            all == widths_of(views(heads@), lists_view(rows@)),
            nats(out@) == all.take(c as int),
        decreases heads.len() - c,
    {
        assert(views(heads@)[c as int] == heads@[c as int]@);
        let w: usize = measure(heads[c].as_str(), rows, c);
        assert(nats(out@.push(w)) =~= all.take(c + 1));
        out.push(w);
        c += 1;
    }
    assert(all.take(c as int) =~= all);
    out
}

/// The cells of a line, each filled up with spaces: to the width in characters, or in bytes.
pub open spec fn filled(cells: Seq<Seq<char>>, widths: Seq<nat>, by_bytes: bool) -> Seq<Seq<char>> {
    Seq::new(
        cells.len(),
        |c: int|
            if by_bytes {
                fill_bytes(cells[c], width_at(widths, c))
            } else {
                pad_right(cells[c], width_at(widths, c))
            },
    )
}

pub open spec fn width_at(widths: Seq<nat>, c: int) -> nat {
    if 0 <= c < widths.len() {
        widths[c]
    } else {
        0
    }
}

/// A text with spaces behind it up to `n` bytes.
pub open spec fn fill_bytes(s: Seq<char>, n: nat) -> Seq<char> {
    if width_of(s) >= n {
        s
    } else {
        s + repeated(" "@, (n - width_of(s)) as nat)
    }
}

fn pad_to_width(s: &str, n: usize) -> (r: String)
    ensures
        r@ == fill_bytes(s@, n as nat),
{
    let have: usize = text_width(s);
    if have >= n {
        s.to_owned()
    } else {
        cat2(s, repeat(" ", n - have).as_str())
    }
}

/// Makes the line of cells, two spaces between them.
pub fn line(cells: &Vec<String>, widths: &Vec<usize>, by_bytes: bool) -> (r: String)
    ensures
        r@ == joined(filled(views(cells@), nats(widths@), by_bytes), "  "@),
{
    let ghost all = filled(views(cells@), nats(widths@), by_bytes);
    let mut out: Vec<String> = Vec::new();
    let mut c: usize = 0;
    assert(views(out@) =~= all.take(0));
    while c < cells.len()
        invariant
            c <= cells@.len(),
            all == filled(views(cells@), nats(widths@), by_bytes),
            views(out@) == all.take(c as int),
        decreases cells.len() - c,
    {
        assert(views(cells@)[c as int] == cells@[c as int]@);
        assert(nats(widths@).len() == widths@.len());
        let w: usize = if c < widths.len() {
            assert(nats(widths@)[c as int] == widths@[c as int]);
            widths[c]
        } else {
            0
        };
        let cell = if by_bytes {
            pad_to_width(cells[c].as_str(), w)
        } else {
            left(cells[c].as_str(), w)
        };
        assert(cell@ == all[c as int]);
        push_text(&mut out, cell);
        assert(views(out@) =~= all.take(c + 1));
        c += 1;
    }
    assert(all.take(c as int) =~= all);
    join(&out, "  ")
}

} // verus!
