//! The history of the summary: how many leads were qualified on the days before.

use crate::sets::lists_view;
use crate::strs::{join, joined, push_text, same, views};
use vstd::prelude::*;

verus! {

/// Names the rows that `csv` reads out of a text whose first line holds the heads.
pub uninterp spec fn csv_rows_of(raw: Seq<char>) -> Seq<Seq<Seq<char>>>;

/// Reads a text with `csv::Reader`, as `csv::ReaderBuilder` sets it up with heads; rows that do not
/// read are passed over. The outcome depends on the text alone.
#[verifier::external_body]
fn csv_rows(raw: &str) -> (r: Vec<Vec<String>>)
    ensures
        lists_view(r@) == csv_rows_of(raw@),
{
    csv::ReaderBuilder::new()
        .has_headers(true)
        .from_reader(raw.as_bytes())
        .records()
        .flatten()
        .map(|row| row.iter().map(String::from).collect())
        .collect()
}

/// One day of a product; the number is kept as its text.
#[derive(Debug)]
pub struct HistoryRow {
    pub product: String,
    pub qualified: String,
}

#[verifier::ext_equal]
pub struct HistoryRowV {
    pub product: Seq<char>,
    pub qualified: Seq<char>,
}

impl View for HistoryRow {
    type V = HistoryRowV;

    open spec fn view(&self) -> HistoryRowV {
        HistoryRowV { product: self.product@, qualified: self.qualified@ }
    }
}

pub open spec fn history_view(v: Seq<HistoryRow>) -> Seq<HistoryRowV> {
    v.map_values(|h: HistoryRow| h@)
}

pub open spec fn column_or(row: Seq<Seq<char>>, c: int, other: Seq<char>) -> Seq<char> {
    if c < row.len() {
        row[c]
    } else {
        other
    }
}

/// The days that rows hold: the product is the first column, the number the third; a row without a
/// product does not count.
pub open spec fn history_of(rows: Seq<Seq<Seq<char>>>) -> Seq<HistoryRowV>
    decreases rows.len(),
{
    if rows.len() == 0 {
        Seq::empty()
    } else {
        let before = history_of(rows.drop_last());
        let product = column_or(rows.last(), 0, Seq::empty());
        if product.len() > 0 {
            before.push(
                HistoryRowV { product, qualified: column_or(rows.last(), 2, "0"@) },
            )
        } else {
            before
        }
    }
}

/// Makes the days of rows.
pub fn history_rows(rows: &Vec<Vec<String>>) -> (r: Vec<HistoryRow>)
    ensures
        history_view(r@) == history_of(lists_view(rows@)),
{
    let ghost all = lists_view(rows@);
    let mut out: Vec<HistoryRow> = Vec::new();
    let mut i: usize = 0;
    assert(history_view(out@) =~= Seq::empty());
    assert(all.take(0) =~= Seq::empty());
    while i < rows.len()
        invariant
            i <= rows@.len(),
            all == lists_view(rows@),
            history_view(out@) == history_of(all.take(i as int)),
        decreases rows.len() - i,
    {
        assert(all.take(i + 1).drop_last() =~= all.take(i as int));
        assert(all[i as int] == views(rows@[i as int]@));
        let row = &rows[i];
        assert(views(row@).len() == row@.len());
        if row.len() > 0 {
            assert(views(row@)[0] == row@[0]@);
            if !row[0].as_str().is_empty() {
                let qualified = if row.len() > 2 {
                    assert(views(row@)[2] == row@[2]@);
                    row[2].clone()
                } else {
                    "0".to_owned()
                };
                let h = HistoryRow { product: row[0].clone(), qualified };
                assert(history_view(out@.push(h)) =~= history_view(out@).push(h@));
                out.push(h);
            }
        }
        i += 1;
    }
    assert(all.take(i as int) =~= all);
    out
}

/// Reads the history out of the text of its file.
pub fn load_history(raw: &str) -> (r: Vec<HistoryRow>)
    ensures
        history_view(r@) == history_of(csv_rows_of(raw@)),
{
    history_rows(&csv_rows(raw))
}

/// The last `n` numbers of a product, the oldest first.
pub open spec fn last_of(history: Seq<HistoryRowV>, product: Seq<char>, n: nat) -> Seq<Seq<char>>
    decreases history.len(),
{
    if history.len() == 0 || n == 0 {
        Seq::empty()
    } else if history.last().product == product {
        last_of(history.drop_last(), product, (n - 1) as nat).push(history.last().qualified)
    } else {
        last_of(history.drop_last(), product, n)
    }
}

/// How many days of the history are shown.
pub const TREND_DAYS: usize = 7;

proof fn lemma_last_len(history: Seq<HistoryRowV>, product: Seq<char>, n: nat)
    ensures
        last_of(history, product, n).len() <= n,
    decreases history.len(),
{
    if history.len() > 0 && n > 0 {
        if history.last().product == product {
            lemma_last_len(history.drop_last(), product, (n - 1) as nat);
        } else {
            lemma_last_len(history.drop_last(), product, n);
        }
    }
}

/// The numbers of the last days of a product, the oldest first.
pub fn trend_rows_for(history: &Vec<HistoryRow>, product: &str) -> (r: Vec<String>)
    ensures
        views(r@) == last_of(history_view(history@), product@, TREND_DAYS as nat),
{
    let ghost all = history_view(history@);
    let mut back: Vec<String> = Vec::new();
    let mut k: usize = history.len();
    assert(all.take(k as int) =~= all);
    let ghost want = last_of(all, product@, TREND_DAYS as nat);
    assert(views(back@).reverse() =~= Seq::empty());
    assert(want + Seq::<Seq<char>>::empty() =~= want);
    while k > 0 && back.len() < TREND_DAYS
        invariant
            k <= history@.len(),
            back@.len() <= TREND_DAYS,
            all == history_view(history@),
            want == last_of(all, product@, TREND_DAYS as nat),
            last_of(all.take(k as int), product@, (TREND_DAYS - back@.len()) as nat) + views(
                back@,
            ).reverse() == want,
        decreases k,
    {
        assert(all.take(k as int).drop_last() =~= all.take(k - 1));
        assert(all[k - 1] == history@[k - 1]@);
        let ghost left = (TREND_DAYS - back@.len()) as nat;
        let ghost had = views(back@);
        assert(had.len() == back@.len());
        if same(history[k - 1].product.as_str(), product) {
            let t = history[k - 1].qualified.clone();
            push_text(&mut back, t);
            assert(views(back@) =~= had.push(t@));
            assert(views(back@).len() == back@.len());
            assert(views(back@).reverse() =~= seq![t@] + had.reverse());
            assert(last_of(all.take(k - 1), product@, (left - 1) as nat) + (seq![t@]
                + had.reverse()) =~= last_of(all.take(k - 1), product@, (left - 1) as nat).push(t@)
                + had.reverse());
        }
        k -= 1;
    }
    let mut out: Vec<String> = Vec::new();
    let mut i: usize = back.len();
    let ghost rev = views(back@).reverse();
    assert(views(back@).len() == back@.len());
    assert(views(out@) =~= rev.take(0));
    while i > 0
        invariant
            i <= back@.len(),
            rev == views(back@).reverse(),
            views(out@) == rev.take(back@.len() - i),
        decreases i,
    {
        assert(views(back@).len() == back@.len());
        assert(views(back@)[i - 1] == back@[i - 1]@);
        push_text(&mut out, back[i - 1].clone());
        assert(views(out@) =~= rev.take(back@.len() - i + 1));
        i -= 1;
    }
    assert(rev.take(back@.len() as int) =~= rev);
    proof {
        assert(last_of(all.take(k as int), product@, (TREND_DAYS - back@.len()) as nat)
            =~= Seq::empty());
        assert(Seq::<Seq<char>>::empty() + rev =~= rev);
    }
    out
}

/// How a trend is shown.
pub open spec fn trend_of(parts: Seq<Seq<char>>) -> Seq<char> {
    if parts.len() == 0 {
        "-"@
    } else {
        joined(parts, " "@)
    }
}

/// Shows a trend; `parts` are its numbers as they are shown.
pub fn trend_text(parts: &Vec<String>) -> (r: String)
    ensures
        r@ == trend_of(views(parts@)),
{
    assert(views(parts@).len() == parts@.len());
    if parts.len() == 0 {
        "-".to_owned()
    } else {
        join(parts, " ")
    }
}

} // verus!
