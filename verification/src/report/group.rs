//! Which ads show the same creative.

use crate::schema::{CreativeRow, CreativeRowV, GroupKind};
use crate::strs::{
    cat2, chars_of, is_digit, lowercase, lowercase_of, rtrim, slice_text, trim, trim_end, trimmed,
};
use vstd::prelude::*;

pub mod laws;

verus! {

// Names of targetings

/// The index of the last `c` of a text, if it holds one.
pub open spec fn last_at(s: Seq<char>, c: char) -> Option<int>
    decreases s.len(),
{
    if s.len() == 0 {
        None
    } else if s.last() == c {
        Some(s.len() - 1)
    } else {
        last_at(s.drop_last(), c)
    }
}

fn find_last(v: &Vec<char>, c: char) -> (r: Option<usize>)
    ensures
        match r {
            Some(i) => i < v@.len() && last_at(v@, c) == Some(i as int),
            None => last_at(v@, c) is None,
        },
{
    let mut n: usize = v.len();
    assert(v@.take(n as int) =~= v@);
    while n > 0
        invariant
            n <= v@.len(),
            last_at(v@, c) == last_at(v@.take(n as int), c),
        decreases n,
    {
        assert(v@.take(n as int).drop_last() =~= v@.take(n - 1));
        if v[n - 1] == c {
            return Some(n - 1);
        }
        n -= 1;
    }
    None
}

/// The name of an ad set without what stands in brackets at its end; `-` where nothing is left.
pub open spec fn base_targeting_of(name: Seq<char>) -> Seq<char> {
    let t = trimmed(name);
    let base = match last_at(t, '(') {
        Some(i) => if t.len() > 0 && t.last() == ')' {
            trim_end(t.take(i))
        } else {
            t
        },
        None => t,
    };
    if base.len() == 0 {
        "-"@
    } else {
        base
    }
}

pub fn base_targeting(name: &str) -> (r: String)
    ensures
        r@ == base_targeting_of(name@),
{
    let t = trim(name);
    let v = chars_of(t.as_str());
    let base = match find_last(&v, '(') {
        Some(i) => if v[v.len() - 1] == ')' {
            let head = slice_text(&v, 0, i);
            assert(head@ =~= v@.take(i as int));
            rtrim(head.as_str())
        } else {
            t
        },
        None => t,
    };
    if chars_of(base.as_str()).len() == 0 {
        "-".to_owned()
    } else {
        base
    }
}

// Names of copies

pub open spec fn is_either(c: char, small: char, big: char) -> bool {
    c == small || c == big
}

/// Whether `copy` stands in a text at `i`, in small or capital letters.
pub open spec fn copy_at(s: Seq<char>, i: int) -> bool {
    &&& 0 <= i && i + 4 <= s.len()
    &&& is_either(s[i], 'c', 'C')
    &&& is_either(s[i + 1], 'o', 'O')
    &&& is_either(s[i + 2], 'p', 'P')
    &&& is_either(s[i + 3], 'y', 'Y')
}

/// The last index up to `n` at which `copy` stands.
pub open spec fn last_copy(s: Seq<char>, n: int) -> Option<int>
    decreases n + 1,
{
    if n < 0 {
        None
    } else if copy_at(s, n) {
        Some(n)
    } else {
        last_copy(s, n - 1)
    }
}

pub open spec fn digits_or_spaces(s: Seq<char>) -> bool {
    forall|i: int| 0 <= i < s.len() ==> is_digit(#[trigger] s[i]) || s[i] == ' '
}

pub open spec fn is_dash(c: char) -> bool {
    c == '-' || c == '\u{2013}' || c == '\u{2014}'
}

/// A text without the dashes at its end.
pub open spec fn undashed(s: Seq<char>) -> Seq<char>
    decreases s.len(),
{
    if s.len() > 0 && is_dash(s.last()) {
        undashed(s.drop_last())
    } else {
        s
    }
}

/// The name of an ad without what marks it as a copy: dashes, the word `copy` and a number.
pub open spec fn copied_name(name: Seq<char>) -> Seq<char> {
    match last_copy(name, name.len() - 4) {
        Some(i) => {
            let before = trim_end(name.take(i));
            if digits_or_spaces(name.skip(i + 4)) && undashed(before) != before {
                trim_end(undashed(before))
            } else {
                trimmed(name)
            }
        },
        None => trimmed(name),
    }
}

fn find_copy(v: &Vec<char>) -> (r: Option<usize>)
    ensures
        match r {
            Some(i) => i + 4 <= v@.len() && last_copy(v@, v@.len() - 4) == Some(i as int),
            None => last_copy(v@, v@.len() - 4) is None,
        },
{
    if v.len() < 4 {
        return None;
    }
    let total: usize = v.len();
    let mut n: usize = total - 3;
    while n > 0
        invariant
            n + 3 <= total,
            total == v@.len(),
            last_copy(v@, v@.len() - 4) == last_copy(v@, n - 1),
        decreases n,
    {
        let i: usize = n - 1;
        if (v[i] == 'c' || v[i] == 'C') && (v[i + 1] == 'o' || v[i + 1] == 'O') && (v[i + 2] == 'p'
            || v[i + 2] == 'P') && (v[i + 3] == 'y' || v[i + 3] == 'Y') {
            return Some(i);
        }
        n -= 1;
    }
    None
}

proof fn lemma_undashed(s: Seq<char>)
    ensures
        undashed(s).len() <= s.len(),
        undashed(s) == s.take(undashed(s).len() as int),
    decreases s.len(),
{
    if s.len() > 0 && is_dash(s.last()) {
        lemma_undashed(s.drop_last());
        assert(undashed(s) =~= s.take(undashed(s).len() as int));
    } else {
        assert(s =~= s.take(s.len() as int));
    }
}

/// Strips what marks the name of an ad as that of a copy.
pub fn strip_copy_suffix(name: &str) -> (r: String)
    ensures
        r@ == copied_name(name@),
{
    let v = chars_of(name);
    let total: usize = v.len();
    let start: usize = match find_copy(&v) {
        Some(i) => i,
        None => {
            return trim(name);
        },
    };
    let mut k: usize = start + 4;
    while k < total
        invariant
            total == v@.len(),
            start + 4 <= k <= total,
            v@ == name@,
            last_copy(v@, v@.len() - 4) == Some(start as int),
            forall|j: int| start + 4 <= j < k ==> is_digit(#[trigger] v@[j]) || v@[j] == ' ',
        decreases total - k,
    {
        let c = v[k];
        if !(('0' <= c && c <= '9') || c == ' ') {
            assert(v@.skip(start + 4)[k - start - 4] == c);
            return trim(name);
        }
        k += 1;
    }
    assert(digits_or_spaces(v@.skip(start + 4)));
    let head = slice_text(&v, 0, start);
    assert(head@ =~= v@.take(start as int));
    let before = chars_of(rtrim(head.as_str()).as_str());
    let mut n: usize = before.len();
    assert(before@.take(n as int) =~= before@);
    while n > 0 && (before[n - 1] == '-' || before[n - 1] == '\u{2013}' || before[n - 1]
        == '\u{2014}')
        invariant
            n <= before@.len(),
            undashed(before@) == undashed(before@.take(n as int)),
        decreases n,
    {
        assert(before@.take(n as int).drop_last() =~= before@.take(n - 1));
        n -= 1;
    }
    proof {
        lemma_undashed(before@);
        assert(undashed(before@) == before@.take(n as int));
        if n == before@.len() {
            assert(before@.take(n as int) =~= before@);
        }
    }
    if n == before.len() {
        return trim(name);
    }
    let base = slice_text(&before, 0, n);
    assert(base@ =~= before@.take(n as int));
    rtrim(base.as_str())
}

// Groups

/// The kind and the key of the group of an ad: by the name of its video, the id of its video, the
/// hash of its image, the name of its image, or by itself.
pub open spec fn group_key_of(
    ad_id: Seq<char>,
    ad_name: Seq<char>,
    cr: Option<CreativeRowV>,
) -> (GroupKind, Seq<char>) {
    match cr {
        Some(c) => {
            let base = lowercase_of(
                copied_name(
                    if c.ad_name.len() == 0 {
                        ad_name
                    } else {
                        c.ad_name
                    },
                ),
            );
            if c.is_video && base.len() > 0 {
                (GroupKind::VideoName, "vidname:"@ + base)
            } else if c.is_video && c.video_id is Some {
                (GroupKind::VideoId, "vid:"@ + c.video_id->0)
            } else if c.is_video && c.afs_video_ids.len() > 0 {
                (GroupKind::VideoId, "vid:"@ + c.afs_video_ids[0])
            } else if c.image_hash is Some {
                (GroupKind::ImageHash, "img:"@ + c.image_hash->0)
            } else if c.image_basename is Some {
                (GroupKind::ImageBasename, "img:"@ + c.image_basename->0)
            } else {
                (GroupKind::AdId, "ad:"@ + ad_id)
            }
        },
        None => (GroupKind::AdId, "ad:"@ + ad_id),
    }
}

/// Finds the kind and the key of the group of an ad.
pub fn group_key(ad_id: &str, ad_name: &str, cr: Option<&CreativeRow>) -> (r: (GroupKind, String))
    ensures
        (r.0, r.1@) == group_key_of(
            ad_id@,
            ad_name@,
            match cr {
                Some(c) => Some(c@),
                None => None,
            },
        ),
{
    if let Some(c) = cr {
        if c.is_video {
            let own = c.ad_name.as_str();
            let name = if chars_of(own).len() == 0 {
                ad_name
            } else {
                own
            };
            let base = lowercase(strip_copy_suffix(name).as_str());
            if chars_of(base.as_str()).len() > 0 {
                return (GroupKind::VideoName, cat2("vidname:", base.as_str()));
            }
            if let Some(v) = &c.video_id {
                return (GroupKind::VideoId, cat2("vid:", v.as_str()));
            }
            if c.afs_video_ids.len() > 0 {
                assert(c@.afs_video_ids[0] == c.afs_video_ids@[0]@);
                return (GroupKind::VideoId, cat2("vid:", c.afs_video_ids[0].as_str()));
            }
        }
        if let Some(h) = &c.image_hash {
            return (GroupKind::ImageHash, cat2("img:", h.as_str()));
        }
        if let Some(b) = &c.image_basename {
            return (GroupKind::ImageBasename, cat2("img:", b.as_str()));
        }
    }
    (GroupKind::AdId, cat2("ad:", ad_id))
}

} // verus!
