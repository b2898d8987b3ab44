//! What the groups of ads and the names of targetings go by.

use crate::report::group::{
    base_targeting_of, copied_name, copy_at, group_key_of, is_dash, last_at, last_copy, undashed,
};
use crate::schema::{CreativeRowV, GroupKind};
use crate::strs::{is_digit, is_space, lowercase_of, trim_end, trimmed};
use vstd::prelude::*;

verus! {

// Targetings

proof fn lemma_last_at(a: Seq<char>, b: Seq<char>, c: char)
    requires
        forall|i: int| 0 <= i < b.len() ==> #[trigger] b[i] != c,
    ensures
        last_at(a + seq![c] + b, c) == Some(a.len() as int),
    decreases b.len(),
{
    let s = a + seq![c] + b;
    if b.len() > 0 {
        assert(s.last() == b[b.len() - 1]);
        assert(s.drop_last() =~= a + seq![c] + b.drop_last());
        assert forall|i: int| 0 <= i < b.len() - 1 implies #[trigger] b.drop_last()[i] != c by {
            assert(b[i] != c);
        }
        lemma_last_at(a, b.drop_last(), c);
    } else {
        assert(s.last() == c);
    }
}

proof fn lemma_none_at(s: Seq<char>, c: char)
    requires
        forall|i: int| 0 <= i < s.len() ==> #[trigger] s[i] != c,
    ensures
        last_at(s, c) is None,
    decreases s.len(),
{
    if s.len() > 0 {
        assert(s[s.len() - 1] != c);
        assert forall|i: int| 0 <= i < s.len() - 1 implies #[trigger] s.drop_last()[i] != c by {
            assert(s[i] != c);
        }
        lemma_none_at(s.drop_last(), c);
    }
}

/// What stands in brackets at the end of the name of an ad set does not count, nor does the white
/// space ahead of it; two ad sets that differ in nothing else have one targeting. Where nothing
/// else is left, a dash stands for it.
pub proof fn law_brackets_do_not_count(
    name: Seq<char>,
    base: Seq<char>,
    inside: Seq<char>,
)
    requires
        trimmed(name) == base + seq!['('] + inside + seq![')'],
        forall|i: int| 0 <= i < inside.len() ==> #[trigger] inside[i] != '(',
    ensures
        base_targeting_of(name) == if trim_end(base).len() > 0 {
            trim_end(base)
        } else {
            "-"@
        },
{
    let t = trimmed(name);
    let rest = inside + seq![')'];
    assert(t =~= base + seq!['('] + rest);
    assert forall|i: int| 0 <= i < rest.len() implies #[trigger] rest[i] != '(' by {
        if i < inside.len() {
            assert(rest[i] == inside[i]);
        }
    }
    lemma_last_at(base, rest, '(');
    assert(t.last() == ')');
    assert(t.take(base.len() as int) =~= base);
}

/// A name that does not end in a bracket, or opens none, is the targeting as it is.
pub proof fn law_plain_names_count_as_they_are(name: Seq<char>)
    requires
        trimmed(name).len() > 0,
        trimmed(name).last() != ')' || forall|i: int|
            0 <= i < trimmed(name).len() ==> #[trigger] trimmed(name)[i] != '(',
    ensures
        base_targeting_of(name) == trimmed(name),
{
    let t = trimmed(name);
    if t.last() == ')' {
        lemma_none_at(t, '(');
    }
}

// Copies

proof fn lemma_last_copy(s: Seq<char>, at: int, n: int)
    requires
        copy_at(s, at),
        at <= n,
        forall|i: int| at < i <= n ==> !#[trigger] copy_at(s, i),
    ensures
        last_copy(s, n) == Some(at),
    decreases n - at,
{
    if at < n {
        assert(!copy_at(s, n));
        lemma_last_copy(s, at, n - 1);
    }
}

/// A name with a dash, the word `copy` in any letters and a number behind it is the name itself: a
/// copy of an ad has the name of the ad.
pub proof fn law_copies_have_one_name(base: Seq<char>, word: Seq<char>, number: Seq<char>)
    requires
        base.len() > 0,
        trim_end(base) == base,
        !is_dash(base.last()),
        word.len() == 4,
        word[0] == 'c' || word[0] == 'C',
        word[1] == 'o' || word[1] == 'O',
        word[2] == 'p' || word[2] == 'P',
        word[3] == 'y' || word[3] == 'Y',
        forall|i: int| 0 <= i < number.len() ==> is_digit(#[trigger] number[i]) || number[i] == ' ',
    ensures
        copied_name(base + seq![' ', '-', ' '] + word + number) == base,
{
    let head = base + seq![' ', '-', ' '];
    let name = head + word + number;
    let at = head.len() as int;
    assert(name[at] == word[0] && name[at + 1] == word[1] && name[at + 2] == word[2] && name[at + 3]
        == word[3]);
    assert(copy_at(name, at));
    assert forall|i: int| at < i <= name.len() - 4 implies !#[trigger] copy_at(name, i) by {
        if i < at + 4 {
            assert(name[i] == word[i - at]);
        } else {
            assert(name[i] == number[i - at - 4]);
        }
    }
    lemma_last_copy(name, at, name.len() - 4);
    assert(name.take(at) =~= head);
    assert(name.skip(at + 4) =~= number);
    let dashed = base + seq![' ', '-'];
    assert(head.drop_last() =~= dashed);
    assert(head.last() == ' ' && dashed.last() == '-');
    assert(is_space(' ') && !is_space('-'));
    reveal_with_fuel(trim_end, 3);
    assert(trim_end(head) == dashed);
    let spaced = base + seq![' '];
    assert(dashed.drop_last() =~= spaced);
    assert(spaced.last() == ' ');
    reveal_with_fuel(undashed, 3);
    assert(undashed(dashed) == spaced);
    assert(spaced.len() != dashed.len());
    assert(spaced.drop_last() =~= base);
    assert(trim_end(spaced) == trim_end(base));
}

/// A name that does not hold the word `copy` only loses white space at its ends.
pub proof fn law_names_without_copy_are_kept(name: Seq<char>)
    requires
        forall|i: int| !#[trigger] copy_at(name, i),
    ensures
        copied_name(name) == trimmed(name),
{
    lemma_no_copy(name, name.len() - 4);
}

proof fn lemma_no_copy(s: Seq<char>, n: int)
    requires
        forall|i: int| !#[trigger] copy_at(s, i),
    ensures
        last_copy(s, n) is None,
    decreases n + 1,
{
    if n >= 0 {
        lemma_no_copy(s, n - 1);
    }
}

// Groups

/// Two videos are of one group where their names are, copies and letters aside.
pub proof fn law_videos_go_by_their_name(
    id1: Seq<char>,
    id2: Seq<char>,
    n1: Seq<char>,
    n2: Seq<char>,
    c1: CreativeRowV,
    c2: CreativeRowV,
)
    requires
        c1.is_video && c2.is_video,
        c1.ad_name.len() > 0 && c2.ad_name.len() > 0,
        lowercase_of(copied_name(c1.ad_name)).len() > 0,
        lowercase_of(copied_name(c1.ad_name)) == lowercase_of(copied_name(c2.ad_name)),
    ensures
        group_key_of(id1, n1, Some(c1)) == group_key_of(id2, n2, Some(c2)),
        group_key_of(id1, n1, Some(c1)).0 == GroupKind::VideoName,
{
}

/// Two images that have a hash are of one group just where it is the same.
pub proof fn law_images_go_by_their_hash(
    id1: Seq<char>,
    id2: Seq<char>,
    n1: Seq<char>,
    n2: Seq<char>,
    c1: CreativeRowV,
    c2: CreativeRowV,
)
    requires
        !c1.is_video && !c2.is_video,
        c1.image_hash is Some && c2.image_hash is Some,
    ensures
        group_key_of(id1, n1, Some(c1)).0 == GroupKind::ImageHash,
        group_key_of(id1, n1, Some(c1)) == group_key_of(id2, n2, Some(c2)) <==> c1.image_hash
            == c2.image_hash,
{
    lemma_same_behind("img:"@, c1.image_hash->0, c2.image_hash->0);
}

proof fn lemma_same_behind(p: Seq<char>, a: Seq<char>, b: Seq<char>)
    ensures
        p + a == p + b <==> a == b,
{
    if p + a == p + b {
        assert((p + a).skip(p.len() as int) =~= a);
        assert((p + b).skip(p.len() as int) =~= b);
    }
}

/// An ad of which no creative is known, and one whose creative has neither a video nor an image, is
/// a group of its own.
pub proof fn law_others_stand_alone(
    id1: Seq<char>,
    id2: Seq<char>,
    n1: Seq<char>,
    n2: Seq<char>,
    c1: Option<CreativeRowV>,
    c2: Option<CreativeRowV>,
)
    requires
        c1 matches Some(c) ==> !c.is_video && c.image_hash is None && c.image_basename is None,
        c2 matches Some(c) ==> !c.is_video && c.image_hash is None && c.image_basename is None,
    ensures
        group_key_of(id1, n1, c1).0 == GroupKind::AdId,
        group_key_of(id1, n1, c1) == group_key_of(id2, n2, c2) <==> id1 == id2,
{
    lemma_same_behind("ad:"@, id1, id2);
}

/// What a group goes by is told by its kind: the name of a video counts before its id, the one of
/// the creative before the first of its assets, and the hash of an image before its name.
pub proof fn law_groups_go_by_the_best_known(id: Seq<char>, name: Seq<char>, c: CreativeRowV)
    ensures
        ({
            let k = group_key_of(id, name, Some(c));
            let own = if c.ad_name.len() > 0 {
                c.ad_name
            } else {
                name
            };
            let named = c.is_video && lowercase_of(copied_name(own)).len() > 0;
            let by_video = c.is_video && !named && (c.video_id is Some || c.afs_video_ids.len()
                > 0);
            &&& named ==> k == (GroupKind::VideoName, "vidname:"@ + lowercase_of(copied_name(own)))
            &&& by_video && c.video_id is Some ==> k == (
                GroupKind::VideoId,
                "vid:"@ + c.video_id->0,
            )
            &&& by_video && c.video_id is None ==> k == (
                GroupKind::VideoId,
                "vid:"@ + c.afs_video_ids[0],
            )
            &&& !named && !by_video && c.image_hash is Some ==> k == (
                GroupKind::ImageHash,
                "img:"@ + c.image_hash->0,
            )
            &&& !named && !by_video && c.image_hash is None && c.image_basename is Some ==> k == (
                GroupKind::ImageBasename,
                "img:"@ + c.image_basename->0,
            )
            &&& !named && !by_video && c.image_hash is None && c.image_basename is None ==> k == (
                GroupKind::AdId,
                "ad:"@ + id,
            )
        }),
{
}

} // verus!
