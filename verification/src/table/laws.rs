//! How wide a column is.

use crate::strs::{pad_left, pad_right, repeated};
use crate::table::{column_width, fill_bytes, filled, width_of, widths_of};
use crate::text::{byte_len, lemma_byte_len_add, width};
use vstd::prelude::*;

verus! {

/// A column is as wide as its widest cell: none is wider, nor is the head, and one of them is as
/// wide.
pub proof fn law_column_is_as_wide_as_its_widest(
    head: Seq<char>,
    rows: Seq<Seq<Seq<char>>>,
    c: int,
)
    requires
        0 <= c,
    ensures
        column_width(head, rows, c) >= width_of(head),
        forall|r: int|
            0 <= r < rows.len() && c < (#[trigger] rows[r]).len() ==> column_width(head, rows, c)
                >= width_of(rows[r][c]),
        column_width(head, rows, c) == width_of(head) || exists|r: int|
            0 <= r < rows.len() && c < (#[trigger] rows[r]).len() && column_width(head, rows, c)
                == width_of(rows[r][c]),
    decreases rows.len(),
{
    if rows.len() > 0 {
        let rest = rows.drop_last();
        law_column_is_as_wide_as_its_widest(head, rest, c);
        assert(forall|r: int| 0 <= r < rest.len() ==> #[trigger] rest[r] == rows[r]);
        assert(forall|r: int| 0 <= r < rest.len() ==> rest[r] == #[trigger] rows[r]);
        assert(rows[rows.len() - 1] == rows.last());
    }
}

proof fn lemma_spaces(n: nat)
    ensures
        repeated(" "@, n).len() == n,
        byte_len(repeated(" "@, n)) == n,
    decreases n,
{
    reveal_strlit(" ");
    if n > 0 {
        lemma_spaces((n - 1) as nat);
        lemma_byte_len_add(repeated(" "@, (n - 1) as nat), " "@);
        lemma_byte_len_add(" "@, repeated(" "@, (n - 1) as nat));
        reveal_with_fuel(byte_len, 2);
        assert(" "@.drop_last() =~= Seq::empty());
        assert(byte_len(" "@) == 1);
    }
}

/// A cell that is filled up starts with its text, and is as wide as its column; a wider one stays
/// as it is.
pub proof fn law_cells_are_filled_up(s: Seq<char>, n: nat)
    requires
        n < usize::MAX,
    ensures
        s.is_prefix_of(fill_bytes(s, n)),
        s.is_prefix_of(pad_right(s, n)),
        s.is_suffix_of(pad_left(s, n)),
        byte_len(s) >= n ==> fill_bytes(s, n) == s,
        byte_len(s) <= n ==> byte_len(fill_bytes(s, n)) == n,
        s.len() >= n ==> pad_right(s, n) == s && pad_left(s, n) == s,
        s.len() <= n ==> pad_right(s, n).len() == n && pad_left(s, n).len() == n,
{
    if byte_len(s) < n {
        let fill = repeated(" "@, (n - byte_len(s)) as nat);
        lemma_spaces((n - byte_len(s)) as nat);
        lemma_byte_len_add(s, fill);
        assert(s =~= fill_bytes(s, n).subrange(0, s.len() as int));
    } else {
        assert(s =~= fill_bytes(s, n).subrange(0, s.len() as int));
    }
    if s.len() < n {
        lemma_spaces((n - s.len()) as nat);
        assert(s =~= pad_left(s, n).subrange(n - s.len(), n as int));
    } else {
        assert(s =~= pad_left(s, n).subrange(0, s.len() as int));
    }
    assert(s =~= pad_right(s, n).subrange(0, s.len() as int));
}

/// The cells of a row that is in the table are all as wide as their columns when filled up.
pub proof fn law_columns_line_up(
    heads: Seq<Seq<char>>,
    rows: Seq<Seq<Seq<char>>>,
    r: int,
    c: int,
)
    requires
        0 <= r < rows.len(),
        0 <= c < heads.len(),
        c < rows[r].len(),
        widths_of(heads, rows)[c] < usize::MAX,
    ensures
        byte_len(filled(rows[r], widths_of(heads, rows), true)[c]) == widths_of(heads, rows)[c],
        byte_len(filled(heads, widths_of(heads, rows), true)[c]) == widths_of(heads, rows)[c],
{
    law_column_is_as_wide_as_its_widest(heads[c], rows, c);
    law_cells_are_filled_up(rows[r][c], widths_of(heads, rows)[c]);
    law_cells_are_filled_up(heads[c], widths_of(heads, rows)[c]);
}

/// A character has as many bytes as UTF-8 gives it.
pub proof fn law_characters_have_their_bytes(c: char)
    ensures
        1 <= width(c) <= 4,
        c as u32 <= 0x7f <==> width(c) == 1,
        0x80 <= c as u32 <= 0x7ff <==> width(c) == 2,
        0x800 <= c as u32 <= 0xffff <==> width(c) == 3,
        0x10000 <= c as u32 <==> width(c) == 4,
{
}

} // verus!
