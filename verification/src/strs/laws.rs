//! What cutting and replacing do to texts.

use crate::strs::{
    all_digits, dec, dec_int, digit_char, index_from, is_digit, is_space, lemma_split_on_len,
    number_of, occurs_at, parsed_int, parsed_nat, replaced, replaced_from, split_on,
    split_once_spec, trim_end, trim_start, trimmed, without_cr,
};
use vstd::prelude::*;

verus! {

// Pieces

/// A text without the character is one piece. Two texts with the character between them have the
/// pieces of the one and then those of the other.
pub proof fn law_pieces_are_joined_by_the_character(a: Seq<char>, b: Seq<char>, c: char)
    ensures
        split_on(a + seq![c] + b, c) == split_on(a, c) + split_on(b, c),
        (forall|i: int| 0 <= i < a.len() ==> #[trigger] a[i] != c) ==> split_on(a, c) == seq![a],
    decreases b.len(),
{
    let s = a + seq![c] + b;
    lemma_split_on_len(a, c);
    lemma_split_on_len(b, c);
    if b.len() == 0 {
        assert(s.drop_last() =~= a);
        assert(split_on(s, c) =~= split_on(a, c) + split_on(b, c));
    } else {
        law_pieces_are_joined_by_the_character(a, b.drop_last(), c);
        lemma_split_on_len(b.drop_last(), c);
        assert(s.drop_last() =~= a + seq![c] + b.drop_last());
        assert(s.last() == b.last());
        assert(split_on(s, c) =~= split_on(a, c) + split_on(b, c));
    }
    if forall|i: int| 0 <= i < a.len() ==> #[trigger] a[i] != c {
        lemma_one_piece(a, c);
    }
}

proof fn lemma_one_piece(a: Seq<char>, c: char)
    requires
        forall|i: int| 0 <= i < a.len() ==> #[trigger] a[i] != c,
    ensures
        split_on(a, c) == seq![a],
    decreases a.len(),
{
    if a.len() > 0 {
        let rest = a.drop_last();
        assert forall|i: int| 0 <= i < rest.len() implies #[trigger] rest[i] != c by {
            assert(a[i] != c);
        }
        lemma_one_piece(rest, c);
        assert(a[a.len() - 1] != c);
        assert(rest.push(a.last()) =~= a);
        assert(split_on(a, c) =~= seq![a]);
    } else {
        assert(a =~= Seq::empty());
    }
}

proof fn lemma_index(a: Seq<char>, b: Seq<char>, c: char, from: int)
    requires
        0 <= from <= a.len(),
        forall|i: int| 0 <= i < a.len() ==> #[trigger] a[i] != c,
    ensures
        index_from(a + seq![c] + b, c, from) == a.len(),
    decreases a.len() - from,
{
    let s = a + seq![c] + b;
    if from < a.len() {
        assert(s[from] == a[from]);
        lemma_index(a, b, c, from + 1);
    } else {
        assert(s[from] == c);
    }
}

/// A text is cut once at the first of the characters: what is ahead of it does not hold it, and
/// what is behind may.
pub proof fn law_cut_once_at_the_first(a: Seq<char>, b: Seq<char>, c: char)
    requires
        forall|i: int| 0 <= i < a.len() ==> #[trigger] a[i] != c,
    ensures
        split_once_spec(a + seq![c] + b, c) == Some((a, b)),
        split_once_spec(a, c) is None,
{
    let s = a + seq![c] + b;
    lemma_index(a, b, c, 0);
    assert(s.take(a.len() as int) =~= a);
    assert(s.skip(a.len() as int + 1) =~= b);
    lemma_no_index(a, c, 0);
}

proof fn lemma_no_index(a: Seq<char>, c: char, from: int)
    requires
        0 <= from <= a.len(),
        forall|i: int| 0 <= i < a.len() ==> #[trigger] a[i] != c,
    ensures
        index_from(a, c, from) == a.len(),
    decreases a.len() - from,
{
    if from < a.len() {
        lemma_no_index(a, c, from + 1);
    }
}

// Replacing

proof fn lemma_replaced_behind(a: Seq<char>, b: Seq<char>, p: Seq<char>, q: Seq<char>, from: int)
    requires
        0 <= from <= b.len(),
        p.len() > 0,
    ensures
        replaced_from(a + b, p, q, a.len() + from) == replaced_from(b, p, q, from),
    decreases b.len() - from,
{
    let s = a + b;
    let at = a.len() + from;
    if from < b.len() {
        assert(s[at] == b[from]);
        if from + p.len() <= b.len() {
            assert(s.subrange(at, at + p.len()) =~= b.subrange(from, from + p.len()));
        }
        assert(occurs_at(s, p, at) <==> occurs_at(b, p, from));
        if occurs_at(b, p, from) {
            lemma_replaced_behind(a, b, p, q, from + p.len());
        } else {
            lemma_replaced_behind(a, b, p, q, from + 1);
        }
    }
}

proof fn lemma_replaced_ahead(
    a: Seq<char>,
    b: Seq<char>,
    p: Seq<char>,
    q: Seq<char>,
    from: int,
)
    requires
        0 <= from <= a.len(),
        p.len() > 0,
        forall|i: int| 0 <= i < a.len() ==> #[trigger] a[i] != p[0],
    ensures
        replaced_from(a + b, p, q, from) == a.skip(from) + replaced(b, p, q),
    decreases a.len() - from,
{
    let s = a + b;
    if from < a.len() {
        lemma_replaced_ahead(a, b, p, q, from + 1);
        if occurs_at(s, p, from) {
            assert(s.subrange(from, from + p.len())[0] == s[from]);
            assert(s[from] == a[from]);
        }
        assert(s[from] == a[from]);
        assert(seq![a[from]] + (a.skip(from + 1) + replaced(b, p, q)) =~= a.skip(from) + replaced(
            b,
            p,
            q,
        ));
    } else {
        lemma_replaced_behind(a, b, p, q, 0);
        assert(a.skip(from) + replaced(b, p, q) =~= replaced(b, p, q));
    }
}

/// The first occurrence of a text is replaced, what is ahead of it stays, and what is behind goes
/// on alike.
pub proof fn law_occurrence_is_replaced(
    ahead: Seq<char>,
    behind: Seq<char>,
    p: Seq<char>,
    q: Seq<char>,
)
    requires
        p.len() > 0,
        forall|i: int| 0 <= i < ahead.len() ==> #[trigger] ahead[i] != p[0],
    ensures
        replaced(ahead + p + behind, p, q) == ahead + q + replaced(behind, p, q),
        replaced(ahead, p, q) == ahead,
{
    let s = p + behind;
    assert(ahead + p + behind =~= ahead + s);
    lemma_replaced_ahead(ahead, s, p, q, 0);
    assert(ahead.skip(0) =~= ahead);
    assert(s.subrange(0, p.len() as int) =~= p);
    assert(occurs_at(s, p, 0));
    lemma_replaced_behind(p, behind, p, q, 0);
    assert(ahead + (q + replaced(behind, p, q)) =~= ahead + q + replaced(behind, p, q));
    let none = Seq::<char>::empty();
    assert(ahead + none =~= ahead);
    lemma_replaced_ahead(ahead, none, p, q, 0);
    assert(replaced(none, p, q) =~= none);
}

// Ends

/// White space goes from the two ends and from nowhere else: a text that begins and ends with other
/// characters stays as it is, whatever white space is put around it.
pub proof fn law_white_space_goes_from_the_ends(a: Seq<char>, s: Seq<char>, b: Seq<char>)
    requires
        s.len() > 0,
        !is_space(s[0]) && !is_space(s.last()),
        forall|i: int| 0 <= i < a.len() ==> is_space(#[trigger] a[i]),
        forall|i: int| 0 <= i < b.len() ==> is_space(#[trigger] b[i]),
    ensures
        trimmed(a + s + b) == s,
        trimmed(a).len() == 0,
{
    lemma_trim_start(a, s + b);
    assert(a + (s + b) =~= a + s + b);
    lemma_trim_end(s, b);
    let none = Seq::<char>::empty();
    lemma_trim_end(none, a);
    lemma_blank_start(a);
}

proof fn lemma_blank_start(a: Seq<char>)
    requires
        forall|i: int| 0 <= i < a.len() ==> is_space(#[trigger] a[i]),
    ensures
        trim_start(a).len() == 0,
    decreases a.len(),
{
    if a.len() > 0 {
        assert(is_space(a[0]));
        assert forall|i: int| 0 <= i < a.drop_first().len() implies is_space(
            #[trigger] a.drop_first()[i],
        ) by {
            assert(is_space(a[i + 1]));
        }
        lemma_blank_start(a.drop_first());
    }
}

proof fn lemma_trim_start(a: Seq<char>, s: Seq<char>)
    requires
        s.len() > 0,
        !is_space(s[0]),
        forall|i: int| 0 <= i < a.len() ==> is_space(#[trigger] a[i]),
    ensures
        trim_start(a + s) == s,
    decreases a.len(),
{
    if a.len() > 0 {
        assert((a + s)[0] == a[0]);
        assert((a + s).drop_first() =~= a.drop_first() + s);
        assert forall|i: int| 0 <= i < a.drop_first().len() implies is_space(
            #[trigger] a.drop_first()[i],
        ) by {
            assert(is_space(a[i + 1]));
        }
        lemma_trim_start(a.drop_first(), s);
    } else {
        assert(a + s =~= s);
    }
}

proof fn lemma_trim_end(s: Seq<char>, b: Seq<char>)
    requires
        s.len() > 0 ==> !is_space(s.last()),
        forall|i: int| 0 <= i < b.len() ==> is_space(#[trigger] b[i]),
    ensures
        trim_end(s + b) == s,
    decreases b.len(),
{
    if b.len() > 0 {
        assert((s + b).last() == b[b.len() - 1]);
        assert((s + b).drop_last() =~= s + b.drop_last());
        assert forall|i: int| 0 <= i < b.drop_last().len() implies is_space(
            #[trigger] b.drop_last()[i],
        ) by {
            assert(is_space(b[i]));
        }
        lemma_trim_end(s, b.drop_last());
    } else {
        assert(s + b =~= s);
    }
}

// Numbers

/// The digits of a number tell it: they are read back as it, and so they are behind a plus sign.
pub proof fn law_digits_tell_their_number(n: nat, max: nat)
    ensures
        all_digits(dec(n)),
        number_of(dec(n)) == n,
        n <= max ==> parsed_nat(dec(n), max) == Some(n) && parsed_nat(seq!['+'] + dec(n), max)
            == Some(n),
        n > max ==> parsed_nat(dec(n), max) is None,
    decreases n,
{
    let s = dec(n);
    if n < 10 {
        lemma_digit(n);
        reveal_with_fuel(number_of, 2);
        assert(s.drop_last() =~= Seq::empty());
    } else {
        law_digits_tell_their_number(n / 10, max);
        lemma_digit(n % 10);
        assert(s.drop_last() =~= dec(n / 10));
        assert forall|i: int| 0 <= i < s.len() implies is_digit(#[trigger] s[i]) by {
            if i < s.len() - 1 {
                assert(s[i] == dec(n / 10)[i]);
            }
        }
    }
    assert(is_digit(s[0]));
    assert((seq!['+'] + s).skip(1) =~= s);
}

proof fn lemma_digit(d: nat)
    requires
        d < 10,
    ensures
        is_digit(digit_char(d)),
        (digit_char(d) as u32) - ('0' as u32) == d,
{
}

/// A number below nothing is its digits behind a minus sign, and is read back as it.
pub proof fn law_signed_digits_tell_their_number(i: int)
    requires
        i64::MIN <= i <= i64::MAX,
    ensures
        parsed_int(dec_int(i)) == Some(i),
{
    if i < 0 {
        law_digits_tell_their_number((-i) as nat, 0);
        assert(dec_int(i).skip(1) =~= dec((-i) as nat));
    } else {
        law_digits_tell_their_number(i as nat, i64::MAX as nat);
        assert(is_digit(dec(i as nat)[0]));
    }
}

/// A carriage return at the end of a line goes, and only there.
pub proof fn law_line_ends_go(s: Seq<char>)
    ensures
        without_cr(s.push('\r')) == s,
        s.len() > 0 && s.last() != '\r' ==> without_cr(s) == s,
{
    assert(s.push('\r').drop_last() =~= s);
}

} // verus!
