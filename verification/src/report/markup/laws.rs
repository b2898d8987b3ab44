//! Templates piece by piece.

use crate::report::markup::{
    filled, has_no_hole, law_hole_takes_its_text, law_plain_template_is_kept,
};
use crate::strs::{has_text, occurs_at};
use vstd::prelude::*;

verus! {

/// Pieces with a hole between each two of them.
pub open spec fn with_holes(pieces: Seq<Seq<char>>) -> Seq<char>
    decreases pieces.len(),
{
    if pieces.len() == 0 {
        Seq::empty()
    } else if pieces.len() == 1 {
        pieces[0]
    } else {
        pieces[0] + seq!['{', '}'] + with_holes(pieces.skip(1))
    }
}

/// Pieces with a text between each two of them.
pub open spec fn woven(pieces: Seq<Seq<char>>, texts: Seq<Seq<char>>) -> Seq<char>
    decreases pieces.len(),
{
    if pieces.len() == 0 {
        Seq::empty()
    } else if pieces.len() == 1 {
        pieces[0]
    } else {
        pieces[0] + texts[0] + woven(pieces.skip(1), texts.skip(1))
    }
}

/// Every hole of a template takes the text at its place.
pub proof fn law_holes_take_their_texts(pieces: Seq<Seq<char>>, texts: Seq<Seq<char>>)
    requires
        pieces.len() == texts.len() + 1,
        forall|i: int| 0 <= i < pieces.len() ==> has_no_hole(#[trigger] pieces[i]),
    ensures
        filled(with_holes(pieces), texts) == woven(pieces, texts),
    decreases pieces.len(),
{
    assert(has_no_hole(pieces[0]));
    if pieces.len() == 1 {
        law_plain_template_is_kept(pieces[0], texts);
    } else {
        let rest = pieces.skip(1);
        assert forall|i: int| 0 <= i < rest.len() implies has_no_hole(#[trigger] rest[i]) by {
            assert(rest[i] == pieces[i + 1]);
        }
        law_holes_take_their_texts(rest, texts.skip(1));
        law_hole_takes_its_text(pieces[0], with_holes(rest), texts);
    }
}

/// What a part of a text shows, the text shows.
pub proof fn lemma_part_shows(
    t: Seq<char>,
    a: Seq<char>,
    part: Seq<char>,
    b: Seq<char>,
    p: Seq<char>,
)
    requires
        t == a + part + b,
        has_text(part, p),
    ensures
        has_text(t, p),
{
    let k = choose|k: int| #[trigger] occurs_at(part, p, k);
    assert(t.subrange(a.len() + k, a.len() + k + p.len()) =~= part.subrange(k, k + p.len()));
    assert(occurs_at(t, p, a.len() + k));
}

pub proof fn lemma_shows_itself(a: Seq<char>, part: Seq<char>, b: Seq<char>)
    ensures
        has_text(a + part + b, part),
{
    let t = a + part + b;
    assert(t.subrange(a.len() as int, (a.len() + part.len()) as int) =~= part);
    assert(occurs_at(t, part, a.len() as int));
}

/// A text stands between the pieces on its two sides.
pub proof fn law_text_stands_between_its_pieces(
    pieces: Seq<Seq<char>>,
    texts: Seq<Seq<char>>,
    i: int,
)
    requires
        pieces.len() == texts.len() + 1,
        0 <= i < texts.len(),
    ensures
        has_text(woven(pieces, texts), pieces[i] + texts[i] + pieces[i + 1]),
    decreases pieces.len(),
{
    let rest = woven(pieces.skip(1), texts.skip(1));
    let all = woven(pieces, texts);
    let none = Seq::<char>::empty();
    if i == 0 {
        let shown = pieces[0] + texts[0] + pieces[1];
        if pieces.len() == 2 {
            assert(all =~= none + shown + none);
            lemma_shows_itself(none, shown, none);
        } else {
            let more = texts[1] + woven(pieces.skip(1).skip(1), texts.skip(1).skip(1));
            assert(all =~= none + shown + more);
            lemma_shows_itself(none, shown, more);
        }
    } else {
        law_text_stands_between_its_pieces(pieces.skip(1), texts.skip(1), i - 1);
        assert(all =~= pieces[0] + texts[0] + rest + none);
        lemma_part_shows(
            all,
            pieces[0] + texts[0],
            rest,
            none,
            pieces[i] + texts[i] + pieces[i + 1],
        );
    }
}

/// Parts one behind the other.
pub open spec fn flat(parts: Seq<Seq<char>>) -> Seq<char>
    decreases parts.len(),
{
    if parts.len() == 0 {
        Seq::empty()
    } else {
        flat(parts.drop_last()) + parts.last()
    }
}

pub proof fn lemma_flat_shows(parts: Seq<Seq<char>>, i: int)
    requires
        0 <= i < parts.len(),
    ensures
        has_text(flat(parts), parts[i]),
    decreases parts.len(),
{
    let none = Seq::<char>::empty();
    let ahead = flat(parts.drop_last());
    let all = flat(parts);
    if i == parts.len() - 1 {
        assert(all =~= ahead + parts[i] + none);
        lemma_shows_itself(ahead, parts[i], none);
    } else {
        lemma_flat_shows(parts.drop_last(), i);
        assert(all =~= none + ahead + parts.last());
        lemma_part_shows(all, none, ahead, parts.last(), parts[i]);
    }
}

/// The first pieces and texts, one behind the other.
pub open spec fn woven_to(p: Seq<Seq<char>>, t: Seq<Seq<char>>, n: int) -> Seq<char>
    decreases n,
{
    if n <= 0 {
        Seq::empty()
    } else {
        woven_to(p, t, n - 1) + p[n - 1] + t[n - 1]
    }
}

pub proof fn lemma_unwoven(p: Seq<Seq<char>>, t: Seq<Seq<char>>, n: int)
    requires
        p.len() == t.len() + 1,
        0 <= n <= t.len(),
    ensures
        woven(p, t) == woven_to(p, t, n) + woven(p.skip(n), t.skip(n)),
    decreases n,
{
    if n == 0 {
        assert(p.skip(0) =~= p && t.skip(0) =~= t);
        assert(woven(p, t) =~= woven_to(p, t, 0) + woven(p, t));
    } else {
        lemma_unwoven(p, t, n - 1);
        let q = p.skip(n - 1);
        let u = t.skip(n - 1);
        assert(q.skip(1) =~= p.skip(n) && u.skip(1) =~= t.skip(n));
        assert(q[0] == p[n - 1] && u[0] == t[n - 1]);
        assert(woven_to(p, t, n - 1) + (p[n - 1] + t[n - 1] + woven(p.skip(n), t.skip(n)))
            =~= woven_to(p, t, n - 1) + p[n - 1] + t[n - 1] + woven(p.skip(n), t.skip(n)));
    }
}

} // verus!
