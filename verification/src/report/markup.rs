//! Pieces of markup: templates with holes, escaped texts, anchors, numbers and embedded bytes.

use crate::brief::print::{group_digits, grouped};
use crate::strs::{chars_of, dec, decimal, push_char, slice_text};
use vstd::prelude::*;

pub mod laws;

verus! {

// Templates

/// A template with its holes `{}` filled, one after the other; a hole for which nothing is left
/// stays empty.
pub open spec fn filled(t: Seq<char>, args: Seq<Seq<char>>) -> Seq<char>
    decreases t.len(),
{
    if t.len() == 0 {
        Seq::empty()
    } else if t.len() >= 2 && t[0] == '{' && t[1] == '}' {
        if args.len() > 0 {
            args[0] + filled(t.skip(2), args.skip(1))
        } else {
            filled(t.skip(2), args)
        }
    } else {
        seq![t[0]] + filled(t.skip(1), args)
    }
}

/// A template without holes is what comes out.
pub proof fn law_plain_template_is_kept(t: Seq<char>, args: Seq<Seq<char>>)
    requires
        forall|i: int| 0 <= i < t.len() ==> #[trigger] t[i] != '{',
    ensures
        filled(t, args) == t,
    decreases t.len(),
{
    if t.len() > 0 {
        let rest = t.skip(1);
        assert forall|i: int| 0 <= i < rest.len() implies #[trigger] rest[i] != '{' by {
            assert(rest[i] == t[i + 1]);
        }
        law_plain_template_is_kept(rest, args);
        assert(seq![t[0]] + rest =~= t);
    } else {
        assert(filled(t, args) =~= t);
    }
}

/// The first hole of a template takes the first of the texts; what is ahead of it stays, and what
/// follows is filled with the other texts.
pub proof fn law_hole_takes_its_text(
    before: Seq<char>,
    after: Seq<char>,
    args: Seq<Seq<char>>,
)
    requires
        args.len() > 0,
        forall|i: int| 0 <= i < before.len() ==> #[trigger] before[i] != '{',
    ensures
        filled(before + seq!['{', '}'] + after, args) == before + args[0] + filled(
            after,
            args.skip(1),
        ),
    decreases before.len(),
{
    let t = before + seq!['{', '}'] + after;
    if before.len() == 0 {
        assert(t.skip(2) =~= after);
        assert(before + args[0] =~= args[0]);
    } else {
        let rest = before.skip(1);
        assert forall|i: int| 0 <= i < rest.len() implies #[trigger] rest[i] != '{' by {
            assert(rest[i] == before[i + 1]);
        }
        law_hole_takes_its_text(rest, after, args);
        assert(t[0] == before[0]);
        assert(t.skip(1) =~= rest + seq!['{', '}'] + after);
        assert(seq![t[0]] + (rest + args[0] + filled(after, args.skip(1))) =~= before + args[0]
            + filled(after, args.skip(1)));
    }
}

/// Whether a text opens no hole.
pub open spec fn has_no_hole(t: Seq<char>) -> bool {
    forall|i: int| 0 <= i < t.len() ==> #[trigger] t[i] != '{'
}

/// A template with one hole.
pub proof fn lemma_one_hole(t: Seq<char>, a: Seq<char>, b: Seq<char>, x: Seq<char>)
    requires
        t == a + seq!['{', '}'] + b,
        has_no_hole(a) && has_no_hole(b),
    ensures
        filled(t, seq![x]) == a + x + b,
{
    law_hole_takes_its_text(a, b, seq![x]);
    law_plain_template_is_kept(b, seq![x].skip(1));
}

/// A template with two holes.
pub proof fn lemma_two_holes(
    t: Seq<char>,
    a: Seq<char>,
    b: Seq<char>,
    c: Seq<char>,
    x: Seq<char>,
    y: Seq<char>,
)
    requires
        t == a + seq!['{', '}'] + (b + seq!['{', '}'] + c),
        has_no_hole(a) && has_no_hole(b) && has_no_hole(c),
    ensures
        filled(t, seq![x, y]) == a + x + b + y + c,
{
    law_hole_takes_its_text(a, b + seq!['{', '}'] + c, seq![x, y]);
    assert(seq![x, y].skip(1) =~= seq![y]);
    lemma_one_hole(b + seq!['{', '}'] + c, b, c, y);
    assert(a + x + (b + y + c) =~= a + x + b + y + c);
}

/// A template with three holes.
pub proof fn lemma_three_holes(
    t: Seq<char>,
    a: Seq<char>,
    b: Seq<char>,
    c: Seq<char>,
    d: Seq<char>,
    x: Seq<char>,
    y: Seq<char>,
    z: Seq<char>,
)
    requires
        t == a + seq!['{', '}'] + (b + seq!['{', '}'] + (c + seq!['{', '}'] + d)),
        has_no_hole(a) && has_no_hole(b) && has_no_hole(c) && has_no_hole(d),
    ensures
        filled(t, seq![x, y, z]) == a + x + b + y + c + z + d,
{
    let rest = b + seq!['{', '}'] + (c + seq!['{', '}'] + d);
    law_hole_takes_its_text(a, rest, seq![x, y, z]);
    assert(seq![x, y, z].skip(1) =~= seq![y, z]);
    lemma_two_holes(rest, b, c, d, y, z);
    assert(a + x + (b + y + c + z + d) =~= a + x + b + y + c + z + d);
}

/// A template with four holes.
pub proof fn lemma_four_holes(
    t: Seq<char>,
    a: Seq<char>,
    b: Seq<char>,
    c: Seq<char>,
    d: Seq<char>,
    e: Seq<char>,
    x: Seq<char>,
    y: Seq<char>,
    z: Seq<char>,
    u: Seq<char>,
)
    requires
        t == a + seq!['{', '}'] + (b + seq!['{', '}'] + (c + seq!['{', '}'] + (d + seq!['{', '}']
            + e))),
        has_no_hole(a) && has_no_hole(b) && has_no_hole(c) && has_no_hole(d) && has_no_hole(e),
    ensures
        filled(t, seq![x, y, z, u]) == a + x + b + y + c + z + d + u + e,
{
    let rest = b + seq!['{', '}'] + (c + seq!['{', '}'] + (d + seq!['{', '}'] + e));
    law_hole_takes_its_text(a, rest, seq![x, y, z, u]);
    assert(seq![x, y, z, u].skip(1) =~= seq![y, z, u]);
    lemma_three_holes(rest, b, c, d, e, y, z, u);
    assert(a + x + (b + y + c + z + d + u + e) =~= a + x + b + y + c + z + d + u + e);
}

/// A template with five holes.
pub proof fn lemma_five_holes(
    t: Seq<char>,
    a: Seq<char>,
    b: Seq<char>,
    c: Seq<char>,
    d: Seq<char>,
    e: Seq<char>,
    f: Seq<char>,
    x: Seq<char>,
    y: Seq<char>,
    z: Seq<char>,
    u: Seq<char>,
    v: Seq<char>,
)
    requires
        t == a + seq!['{', '}'] + (b + seq!['{', '}'] + (c + seq!['{', '}'] + (d + seq!['{', '}']
            + (e + seq!['{', '}'] + f)))),
        has_no_hole(a) && has_no_hole(b) && has_no_hole(c) && has_no_hole(d) && has_no_hole(e)
            && has_no_hole(f),
    ensures
        filled(t, seq![x, y, z, u, v]) == a + x + b + y + c + z + d + u + e + v + f,
{
    let rest = b + seq!['{', '}'] + (c + seq!['{', '}'] + (d + seq!['{', '}'] + (e + seq!['{', '}']
        + f)));
    law_hole_takes_its_text(a, rest, seq![x, y, z, u, v]);
    assert(seq![x, y, z, u, v].skip(1) =~= seq![y, z, u, v]);
    lemma_four_holes(rest, b, c, d, e, f, y, z, u, v);
    assert(a + x + (b + y + c + z + d + u + e + v + f) =~= a + x + b + y + c + z + d + u + e + v
        + f);
}

/// Whether texts are those of a list.
pub open spec fn are_texts(a: Seq<Seq<char>>, v: Seq<&str>) -> bool {
    a.len() == v.len() && forall|i: int| 0 <= i < v.len() ==> #[trigger] a[i] == v[i]@
}

/// Fills the holes of a template.
pub fn fill(t: &str, args: &Vec<&str>) -> (r: String)
    ensures
        forall|a: Seq<Seq<char>>|
            are_texts(a, args@) ==> r@ == #[trigger] filled(t@, a),
{
    let v = chars_of(t);
    let ghost all: Seq<Seq<char>> = Seq::new(args@.len(), |i: int| args@[i]@);
    let mut out = String::new();
    let mut i: usize = 0;
    let mut k: usize = 0;
    assert(v@.skip(0) =~= v@ && all.skip(0) =~= all);
    assert(out@ + filled(v@, all) =~= filled(v@, all));
    while i < v.len()
        invariant
            i <= v@.len(),
            k <= args@.len(),
            all == Seq::new(args@.len(), |j: int| args@[j]@),
            out@ + filled(v@.skip(i as int), all.skip(k as int)) == filled(v@, all),
        decreases v.len() - i,
    {
        let ghost rest = v@.skip(i as int);
        let ghost given = out@;
        if v[i] == '{' && i + 1 < v.len() && v[i + 1] == '}' {
            assert(rest.skip(2) =~= v@.skip(i + 2));
            if k < args.len() {
                assert(all.skip(k as int).skip(1) =~= all.skip(k + 1));
                out.append(args[k]);
                k += 1;
                assert(out@ + filled(v@.skip(i + 2), all.skip(k as int)) =~= given + filled(
                    rest,
                    all.skip(k - 1),
                ));
            }
            i += 2;
        } else {
            assert(rest.skip(1) =~= v@.skip(i + 1));
            push_char(&mut out, v[i]);
            assert(out@ + filled(v@.skip(i + 1), all.skip(k as int)) =~= given + filled(
                rest,
                all.skip(k as int),
            ));
            i += 1;
        }
    }
    assert(v@.skip(i as int).len() == 0);
    assert(out@ =~= filled(v@, all));
    assert forall|a: Seq<Seq<char>>| are_texts(a, args@) implies out@ == #[trigger] filled(
        t@,
        a,
    ) by {
        assert(a =~= all);
    }
    out
}

// Escaping

/// A character as it stands in markup.
pub open spec fn esc_char(c: char) -> Seq<char> {
    if c == '&' {
        "&amp;"@
    } else if c == '<' {
        "&lt;"@
    } else if c == '>' {
        "&gt;"@
    } else if c == '"' {
        "&quot;"@
    } else {
        seq![c]
    }
}

/// A text as it stands in markup.
pub open spec fn esc_of(s: Seq<char>) -> Seq<char>
    decreases s.len(),
{
    if s.len() == 0 {
        Seq::empty()
    } else {
        esc_of(s.drop_last()) + esc_char(s.last())
    }
}

/// Escapes a text for markup and the values of attributes.
pub fn esc(s: &str) -> (r: String)
    ensures
        r@ == esc_of(s@),
{
    let v = chars_of(s);
    let mut out = String::new();
    let mut i: usize = 0;
    assert(v@.take(0) =~= Seq::empty());
    while i < v.len()
        invariant
            i <= v@.len(),
            out@ == esc_of(v@.take(i as int)),
        decreases v.len() - i,
    {
        assert(v@.take(i + 1).drop_last() =~= v@.take(i as int));
        let c = v[i];
        if c == '&' {
            out.append("&amp;");
        } else if c == '<' {
            out.append("&lt;");
        } else if c == '>' {
            out.append("&gt;");
        } else if c == '"' {
            out.append("&quot;");
        } else {
            let ghost given = out@;
            push_char(&mut out, c);
            assert(out@ =~= given + seq![c]);
        }
        i += 1;
    }
    assert(v@.take(i as int) =~= v@);
    out
}

/// An escaped text holds no character that opens or closes markup.
pub proof fn law_esc_holds_no_markup(s: Seq<char>)
    ensures
        forall|i: int|
            0 <= i < esc_of(s).len() ==> {
                let c = #[trigger] esc_of(s)[i];
                c != '<' && c != '>' && c != '"'
            },
    decreases s.len(),
{
    if s.len() > 0 {
        law_esc_holds_no_markup(s.drop_last());
        reveal_strlit("&amp;");
        reveal_strlit("&lt;");
        reveal_strlit("&gt;");
        reveal_strlit("&quot;");
        let before = esc_of(s.drop_last());
        let last = esc_char(s.last());
        assert forall|i: int| 0 <= i < esc_of(s).len() implies {
            let c = #[trigger] esc_of(s)[i];
            c != '<' && c != '>' && c != '"'
        } by {
            if i < before.len() {
                assert(esc_of(s)[i] == before[i]);
            } else {
                assert(esc_of(s)[i] == last[i - before.len()]);
            }
        }
    }
}

// Anchors

pub open spec fn is_plain(c: char) -> bool {
    ('a' <= c && c <= 'z') || ('A' <= c && c <= 'Z') || ('0' <= c && c <= '9')
}

pub open spec fn small(c: char) -> char {
    if 'A' <= c && c <= 'Z' {
        (c as int + 32) as char
    } else {
        c
    }
}

/// The letters and digits of a text, in lower case, with one dash for every run of others.
pub open spec fn dashed(s: Seq<char>) -> Seq<char>
    decreases s.len(),
{
    if s.len() == 0 {
        Seq::empty()
    } else {
        let before = dashed(s.drop_last());
        let c = s.last();
        if is_plain(c) {
            before.push(small(c))
        } else if before.len() > 0 && before.last() == '-' {
            before
        } else {
            before.push('-')
        }
    }
}

pub open spec fn no_dash_ahead(s: Seq<char>) -> Seq<char>
    decreases s.len(),
{
    if s.len() > 0 && s[0] == '-' {
        no_dash_ahead(s.drop_first())
    } else {
        s
    }
}

pub open spec fn no_dash_behind(s: Seq<char>) -> Seq<char>
    decreases s.len(),
{
    if s.len() > 0 && s.last() == '-' {
        no_dash_behind(s.drop_last())
    } else {
        s
    }
}

/// The anchor of a text.
pub open spec fn slug_of(s: Seq<char>) -> Seq<char> {
    no_dash_behind(no_dash_ahead(dashed(s)))
}

fn lower(c: char) -> (r: char)
    ensures
        r == small(c),
{
    if 'A' <= c && c <= 'Z' {
        (c as u8 + 32) as char
    } else {
        c
    }
}

/// Makes the anchor of a text.
pub fn slug(s: &str) -> (r: String)
    ensures
        r@ == slug_of(s@),
{
    let v = chars_of(s);
    let mut out: Vec<char> = Vec::new();
    let mut i: usize = 0;
    assert(v@.take(0) =~= Seq::empty());
    while i < v.len()
        invariant
            i <= v@.len(),
            out@ == dashed(v@.take(i as int)),
        decreases v.len() - i,
    {
        assert(v@.take(i + 1).drop_last() =~= v@.take(i as int));
        let c = v[i];
        if ('a' <= c && c <= 'z') || ('A' <= c && c <= 'Z') || ('0' <= c && c <= '9') {
            out.push(lower(c));
        } else if out.len() == 0 || out[out.len() - 1] != '-' {
            out.push('-');
        }
        i += 1;
    }
    assert(v@.take(i as int) =~= v@);
    let mut from: usize = 0;
    assert(out@.skip(0) =~= out@);
    while from < out.len() && out[from] == '-'
        invariant
            from <= out@.len(),
            no_dash_ahead(out@) == no_dash_ahead(out@.skip(from as int)),
        decreases out.len() - from,
    {
        assert(out@.skip(from as int).drop_first() =~= out@.skip(from + 1));
        from += 1;
    }
    let ghost body = out@.skip(from as int);
    let mut to: usize = out.len();
    assert(out@.subrange(from as int, to as int) =~= body);
    while to > from && out[to - 1] == '-'
        invariant
            from <= to <= out@.len(),
            no_dash_behind(body) == no_dash_behind(out@.subrange(from as int, to as int)),
        decreases to,
    {
        assert(out@.subrange(from as int, to as int).drop_last() =~= out@.subrange(
            from as int,
            to - 1,
        ));
        to -= 1;
    }
    slice_text(&out, from, to)
}

spec fn is_anchor_char(c: char) -> bool {
    c == '-' || ('a' <= c && c <= 'z') || ('0' <= c && c <= '9')
}

proof fn lemma_dashed_plain(s: Seq<char>)
    ensures
        forall|i: int| 0 <= i < dashed(s).len() ==> is_anchor_char(#[trigger] dashed(s)[i]),
    decreases s.len(),
{
    if s.len() > 0 {
        lemma_dashed_plain(s.drop_last());
        let before = dashed(s.drop_last());
        assert forall|i: int| 0 <= i < dashed(s).len() implies is_anchor_char(
            #[trigger] dashed(s)[i],
        ) by {
            if i < before.len() {
                assert(dashed(s)[i] == before[i]);
            }
        }
    }
}

proof fn lemma_ahead(s: Seq<char>)
    ensures
        forall|i: int|
            0 <= i < no_dash_ahead(s).len() ==> s.contains(#[trigger] no_dash_ahead(s)[i]),
        no_dash_ahead(s).len() > 0 ==> no_dash_ahead(s)[0] != '-',
    decreases s.len(),
{
    if s.len() > 0 && s[0] == '-' {
        let rest = s.drop_first();
        lemma_ahead(rest);
        assert forall|i: int| 0 <= i < no_dash_ahead(s).len() implies s.contains(
            #[trigger] no_dash_ahead(s)[i],
        ) by {
            let c = no_dash_ahead(rest)[i];
            let k = choose|k: int| 0 <= k < rest.len() && rest[k] == c;
            assert(s[k + 1] == c);
        }
    }
}

proof fn lemma_behind(s: Seq<char>)
    ensures
        no_dash_behind(s).len() <= s.len(),
        forall|i: int|
            0 <= i < no_dash_behind(s).len() ==> #[trigger] no_dash_behind(s)[i] == s[i],
        no_dash_behind(s).len() > 0 ==> no_dash_behind(s).last() != '-',
    decreases s.len(),
{
    if s.len() > 0 && s.last() == '-' {
        lemma_behind(s.drop_last());
    }
}

/// An anchor holds small letters, digits and dashes alone, and no dash at its ends.
pub proof fn law_slug_is_plain(s: Seq<char>)
    ensures
        forall|i: int|
            0 <= i < slug_of(s).len() ==> {
                let c = #[trigger] slug_of(s)[i];
                c == '-' || ('a' <= c && c <= 'z') || ('0' <= c && c <= '9')
            },
        slug_of(s).len() > 0 ==> slug_of(s)[0] != '-' && slug_of(s).last() != '-',
{
    lemma_dashed_plain(s);
    lemma_ahead(dashed(s));
    lemma_behind(no_dash_ahead(dashed(s)));
    let mid = no_dash_ahead(dashed(s));
    assert forall|i: int| 0 <= i < slug_of(s).len() implies is_anchor_char(
        #[trigger] slug_of(s)[i],
    ) by {
        assert(slug_of(s)[i] == mid[i]);
        let k = choose|k: int| 0 <= k < dashed(s).len() && dashed(s)[k] == mid[i];
        assert(is_anchor_char(dashed(s)[k]));
    }
}

// Numbers

/// A number with commas between groups of three digits.
pub fn commas(n: u64) -> (r: String)
    ensures
        r@ == grouped(dec(n as nat)),
{
    let digits = chars_of(decimal(n).as_str());
    let t = group_digits(&digits, digits.len());
    assert(digits@.take(digits@.len() as int) =~= digits@);
    t
}

// Bytes

/// The character of six bits.
pub open spec fn six_bits(n: int) -> char {
    if n < 26 {
        (65 + n) as char
    } else if n < 52 {
        (71 + n) as char
    } else if n < 62 {
        (n - 4) as char
    } else if n == 62 {
        '+'
    } else {
        '/'
    }
}

/// Bytes in base 64 of the standard alphabet: four characters for three bytes, the last ones
/// filled up with `=`.
pub open spec fn b64_of(b: Seq<u8>) -> Seq<char>
    decreases b.len(),
{
    if b.len() == 0 {
        Seq::empty()
    } else {
        let x = b[0] as int;
        let y = if b.len() > 1 {
            b[1] as int
        } else {
            0
        };
        let z = if b.len() > 2 {
            b[2] as int
        } else {
            0
        };
        seq![
            six_bits(x / 4),
            six_bits((x % 4) * 16 + y / 16),
            if b.len() > 1 {
                six_bits((y % 16) * 4 + z / 64)
            } else {
                '='
            },
            if b.len() > 2 {
                six_bits(z % 64)
            } else {
                '='
            },
        ] + b64_of(
            if b.len() > 3 {
                b.skip(3)
            } else {
                Seq::empty()
            },
        )
    }
}

fn to_six_bits(n: u8) -> (c: char)
    requires
        n < 64,
    ensures
        c == six_bits(n as int),
{
    if n < 26 {
        (65 + n) as char
    } else if n < 52 {
        (71 + n) as char
    } else if n < 62 {
        (n - 4) as char
    } else if n == 62 {
        '+'
    } else {
        '/'
    }
}

/// Writes bytes in base 64.
pub fn b64(data: &Vec<u8>) -> (r: String)
    ensures
        r@ == b64_of(data@),
{
    let mut out = String::new();
    let mut i: usize = 0;
    assert(data@.skip(0) =~= data@);
    assert(out@ + b64_of(data@) =~= b64_of(data@));
    while i < data.len()
        invariant
            i <= data@.len(),
            out@ + b64_of(data@.skip(i as int)) == b64_of(data@),
        decreases data.len() - i,
    {
        let ghost rest = data@.skip(i as int);
        let ghost given = out@;
        let left: usize = data.len() - i;
        let x: u8 = data[i];
        let y: u8 = if left > 1 {
            data[i + 1]
        } else {
            0
        };
        let z: u8 = if left > 2 {
            data[i + 2]
        } else {
            0
        };
        push_char(&mut out, to_six_bits(x / 4));
        push_char(&mut out, to_six_bits((x % 4) * 16 + y / 16));
        push_char(
            &mut out,
            if left > 1 {
                to_six_bits((y % 16) * 4 + z / 64)
            } else {
                '='
            },
        );
        push_char(
            &mut out,
            if left > 2 {
                to_six_bits(z % 64)
            } else {
                '='
            },
        );
        let ghost four = out@.skip(given.len() as int);
        assert(out@ =~= given + four);
        assert(b64_of(rest).take(4) =~= four);
        if left > 3 {
            assert(rest.skip(3) =~= data@.skip(i + 3));
            i += 3;
        } else {
            i = data.len();
            assert(data@.skip(i as int) =~= Seq::empty());
        }
        assert(out@ + b64_of(data@.skip(i as int)) =~= given + b64_of(rest));
    }
    assert(data@.skip(i as int) =~= Seq::empty());
    assert(out@ =~= b64_of(data@));
    out
}

proof fn lemma_six_bits(a: int, b: int)
    requires
        0 <= a < 64,
        0 <= b < 64,
        six_bits(a) == six_bits(b),
    ensures
        a == b,
{
}

proof fn lemma_six_bits_never_fill(a: int)
    requires
        0 <= a < 64,
    ensures
        six_bits(a) != '=',
{
}

/// Different bytes are written differently.
pub proof fn law_b64_tells_apart(a: Seq<u8>, b: Seq<u8>)
    requires
        b64_of(a) == b64_of(b),
    ensures
        a == b,
    decreases a.len(),
{
    let s = b64_of(a);
    let t = b64_of(b);
    if a.len() == 0 || b.len() == 0 {
        assert(s.len() == 0 && t.len() == 0);
        assert(a =~= b);
    } else {
        let (x, p) = (a[0] as int, b[0] as int);
        let (y, q) = (
            if a.len() > 1 {
                a[1] as int
            } else {
                0
            },
            if b.len() > 1 {
                b[1] as int
            } else {
                0
            },
        );
        let (z, r) = (
            if a.len() > 2 {
                a[2] as int
            } else {
                0
            },
            if b.len() > 2 {
                b[2] as int
            } else {
                0
            },
        );
        assert(s[0] == six_bits(x / 4) && t[0] == six_bits(p / 4));
        assert(s[1] == six_bits((x % 4) * 16 + y / 16));
        assert(t[1] == six_bits((p % 4) * 16 + q / 16));
        assert(s[2] == if a.len() > 1 {
            six_bits((y % 16) * 4 + z / 64)
        } else {
            '='
        });
        assert(t[2] == if b.len() > 1 {
            six_bits((q % 16) * 4 + r / 64)
        } else {
            '='
        });
        assert(s[3] == if a.len() > 2 {
            six_bits(z % 64)
        } else {
            '='
        });
        assert(t[3] == if b.len() > 2 {
            six_bits(r % 64)
        } else {
            '='
        });
        lemma_six_bits(x / 4, p / 4);
        lemma_six_bits((x % 4) * 16 + y / 16, (p % 4) * 16 + q / 16);
        assert(x == p && y / 16 == q / 16);
        lemma_six_bits_never_fill((y % 16) * 4 + z / 64);
        lemma_six_bits_never_fill((q % 16) * 4 + r / 64);
        lemma_six_bits_never_fill(z % 64);
        lemma_six_bits_never_fill(r % 64);
        assert((a.len() > 1) == (b.len() > 1));
        assert((a.len() > 2) == (b.len() > 2));
        if a.len() > 1 {
            lemma_six_bits((y % 16) * 4 + z / 64, (q % 16) * 4 + r / 64);
            assert(y == q && z / 64 == r / 64);
        }
        if a.len() > 2 {
            lemma_six_bits(z % 64, r % 64);
            assert(z == r);
        }
        let at = if a.len() > 3 {
            a.skip(3)
        } else {
            Seq::empty()
        };
        let bt = if b.len() > 3 {
            b.skip(3)
        } else {
            Seq::empty()
        };
        assert(b64_of(at) =~= s.skip(4));
        assert(b64_of(bt) =~= t.skip(4));
        law_b64_tells_apart(at, bt);
        assert(a.len() == b.len());
        assert forall|i: int| 0 <= i < a.len() implies a[i] == b[i] by {
            if i >= 3 {
                assert(at[i - 3] == bt[i - 3]);
            }
        }
        assert(a =~= b);
    }
}

} // verus!
