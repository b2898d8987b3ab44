//! Cutting texts at a number of bytes without cutting a character.

use crate::strs::cat2;
use vstd::prelude::*;
use vstd::string::StrSliceExecFns;

verus! {

/// The number of bytes of a character in UTF-8.
pub open spec fn width(c: char) -> nat {
    let u = c as u32;
    if u < 0x80 {
        1
    } else if u < 0x800 {
        2
    } else if u < 0x10000 {
        3
    } else {
        4
    }
}

/// The number of bytes of a text in UTF-8.
pub open spec fn byte_len(s: Seq<char>) -> nat
    decreases s.len(),
{
    if s.len() == 0 {
        0
    } else {
        byte_len(s.drop_last()) + width(s.last())
    }
}

/// How many characters of `s`, counted from the front and starting at `from`, fit into `cap` bytes.
pub open spec fn fitting(s: Seq<char>, from: int, cap: int) -> int
    decreases s.len() - from,
{
    if from < 0 || from >= s.len() || width(s[from]) > cap {
        0
    } else {
        1 + fitting(s, from + 1, cap - width(s[from]))
    }
}

/// The longest prefix of `s` of at most `cap` bytes.
pub open spec fn cut(s: Seq<char>, cap: int) -> Seq<char> {
    s.take(fitting(s, 0, cap))
}

/// `cut`, with `marker` behind it only where something was cut.
pub open spec fn cut_marked(s: Seq<char>, cap: int, marker: Seq<char>) -> Seq<char> {
    if cut(s, cap).len() == s.len() {
        s
    } else {
        cut(s, cap) + marker
    }
}

pub proof fn lemma_fitting_bounds(s: Seq<char>, from: int, cap: int)
    requires
        0 <= from <= s.len(),
    ensures
        0 <= fitting(s, from, cap) <= s.len() - from,
    decreases s.len() - from,
{
    if from < s.len() && width(s[from]) <= cap {
        lemma_fitting_bounds(s, from + 1, cap - width(s[from]));
    }
}

proof fn lemma_fitting_bytes(s: Seq<char>, from: int, cap: int)
    requires
        0 <= from <= s.len(),
        0 <= cap,
    ensures
        ({
            let k = from + fitting(s, from, cap);
            &&& from <= k <= s.len()
            &&& byte_len(s.take(k)) <= byte_len(s.take(from)) + cap
            &&& k < s.len() ==> byte_len(s.take(k + 1)) > byte_len(s.take(from)) + cap
        }),
    decreases s.len() - from,
{
    lemma_fitting_bounds(s, from, cap);
    if from < s.len() {
        assert(s.take(from + 1).drop_last() =~= s.take(from));
        if width(s[from]) <= cap {
            lemma_fitting_bytes(s, from + 1, cap - width(s[from]));
        }
    }
}

/// The cut text is a prefix of the text, it fits into the cap, and one character more would not:
/// nothing is cut from a text that fits.
pub proof fn law_cut_is_longest_fitting_prefix(s: Seq<char>, cap: int)
    requires
        0 <= cap,
    ensures
        cut(s, cap) == s.take(cut(s, cap).len() as int),
        cut(s, cap).len() <= s.len(),
        byte_len(cut(s, cap)) <= cap,
        cut(s, cap).len() < s.len() ==> byte_len(s.take(cut(s, cap).len() as int + 1)) > cap,
        byte_len(s) <= cap ==> cut(s, cap) == s,
{
    lemma_fitting_bytes(s, 0, cap);
    let k = fitting(s, 0, cap);
    assert(s.take(0) =~= Seq::empty());
    assert(cut(s, cap).len() == k);
    assert(s.take(s.len() as int) =~= s);
    if k < s.len() {
        lemma_byte_len_grows(s, k + 1);
    }
}

pub proof fn lemma_byte_len_grows(s: Seq<char>, k: int)
    requires
        0 <= k <= s.len(),
    ensures
        byte_len(s.take(k)) <= byte_len(s),
    decreases s.len() - k,
{
    if k < s.len() {
        lemma_byte_len_grows(s, k + 1);
        assert(s.take(k + 1).drop_last() =~= s.take(k));
    } else {
        assert(s.take(k) =~= s);
    }
}

pub proof fn lemma_byte_len_add(a: Seq<char>, b: Seq<char>)
    ensures
        byte_len(a + b) == byte_len(a) + byte_len(b),
    decreases b.len(),
{
    if b.len() == 0 {
        assert(a + b =~= a);
    } else {
        assert((a + b).drop_last() =~= a + b.drop_last());
        lemma_byte_len_add(a, b.drop_last());
    }
}

pub fn char_width(c: char) -> (r: usize)
    ensures
        r == width(c),
        1 <= r <= 4,
{
    let u: u32 = c as u32;
    if u < 0x80 {
        1
    } else if u < 0x800 {
        2
    } else if u < 0x10000 {
        3
    } else {
        4
    }
}

/// The number of bytes of a text, or `limit + 1` where it has more than `limit`.
pub fn bytes_up_to(s: &str, limit: usize) -> (r: usize)
    requires
        limit < usize::MAX,
    ensures
        r == (if byte_len(s@) <= limit {
            byte_len(s@) as int
        } else {
            limit + 1
        }),
{
    let v = crate::strs::chars_of(s);
    let mut n: usize = 0;
    let mut i: usize = 0;
    while i < v.len()
        invariant
            i <= v@.len(),
            v@ == s@,
            limit < usize::MAX,
            n == byte_len(v@.take(i as int)),
            n <= limit,
        decreases v.len() - i,
    {
        proof {
            assert(v@.take(i + 1).drop_last() =~= v@.take(i as int));
            lemma_byte_len_grows(v@, i + 1);
        }
        let w: usize = char_width(v[i]);
        if w > limit - n {
            return limit + 1;
        }
        n += w;
        i += 1;
    }
    assert(v@.take(i as int) =~= v@);
    n
}

/// The number of bytes of a text.
pub fn byte_count(s: &str) -> (r: u128)
    ensures
        r == byte_len(s@),
{
    let v = crate::strs::chars_of(s);
    let mut n: u128 = 0;
    let mut i: usize = 0;
    while i < v.len()
        invariant
            i <= v@.len(),
            v@ == s@,
            n == byte_len(v@.take(i as int)),
            n <= 4 * i,
        decreases v.len() - i,
    {
        assert(v@.take(i + 1).drop_last() =~= v@.take(i as int));
        n += char_width(v[i]) as u128;
        i += 1;
    }
    assert(v@.take(i as int) =~= v@);
    n
}

/// Cuts a text at `cap` bytes, or just before where that is inside a character.
pub fn truncate_chars(s: &str, cap: usize) -> (r: &str)
    ensures
        r@ == cut(s@, cap as int),
{
    let v = crate::strs::chars_of(s);
    let mut left: usize = cap;
    let mut i: usize = 0;
    while i < v.len()
        invariant
            i <= v@.len(),
            v@ == s@,
            fitting(s@, 0, cap as int) == i + fitting(s@, i as int, left as int),
        decreases v.len() - i,
    {
        let w: usize = char_width(v[i]);
        if w > left {
            assert(s@.subrange(0, i as int) =~= cut(s@, cap as int));
            return s.substring_char(0, i);
        }
        left -= w;
        i += 1;
    }
    assert(s@.subrange(0, i as int) =~= cut(s@, cap as int));
    s.substring_char(0, i)
}

/// `truncate_chars`, with `marker` behind the text only where something was cut.
pub fn truncate_marked(s: &str, cap: usize, marker: &str) -> (r: String)
    ensures
        r@ == cut_marked(s@, cap as int, marker@),
{
    let t = truncate_chars(s, cap);
    proof {
        lemma_fitting_bounds(s@, 0, cap as int);
    }
    if t.unicode_len() == s.unicode_len() {
        s.to_owned()
    } else {
        cat2(t, marker)
    }
}

} // verus!
