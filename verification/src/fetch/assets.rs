//! The cache of images, each found by the hash of its bytes.

use crate::schema::{
    rows_view, AssetRef, AssetRefV, CreativeRow, CreativeRowV, CreativesFile,
};
use crate::strs::{
    cat2, cat5, opt_view, push_char, same, split, split_on, trim, trimmed, views,
};
use crate::text::{bytes_up_to, byte_len, cut, truncate_chars};
use sha2::Digest;
use vstd::prelude::*;

verus! {

/// What a content type is, without its parameters.
pub open spec fn bare_type(content_type: Seq<char>) -> Seq<char> {
    trimmed(split_on(content_type, ';')[0])
}

/// The extension of a file of a content type; a type that is not known goes as `jpg`.
pub open spec fn ext_of(content_type: Seq<char>) -> Seq<char> {
    let t = bare_type(content_type);
    if t == "image/png"@ {
        "png"@
    } else if t == "image/webp"@ {
        "webp"@
    } else if t == "image/gif"@ {
        "gif"@
    } else {
        "jpg"@
    }
}

pub fn ext_for(content_type: &str) -> (r: &'static str)
    ensures
        r@ == ext_of(content_type@),
{
    let parts = split(content_type, ';');
    assert(views(parts@)[0] == parts@[0]@);
    let t = trim(parts[0].as_str());
    if same(t.as_str(), "image/png") {
        "png"
    } else if same(t.as_str(), "image/webp") {
        "webp"
    } else if same(t.as_str(), "image/gif") {
        "gif"
    } else {
        "jpg"
    }
}

/// The directory of a hash: its first two bytes, where they are characters of their own.
pub open spec fn fan_out(sha256: Seq<char>) -> Seq<char> {
    if byte_len(cut(sha256, 2)) == 2 {
        cut(sha256, 2)
    } else {
        "00"@
    }
}

/// Where the file of an image lies, below the root of the cache.
pub open spec fn path_of(sha256: Seq<char>, content_type: Seq<char>) -> Seq<char> {
    fan_out(sha256) + "/"@ + sha256 + "."@ + ext_of(content_type)
}

pub fn rel_path(sha256: &str, content_type: &str) -> (r: String)
    ensures
        r@ == path_of(sha256@, content_type@),
{
    let hh = truncate_chars(sha256, 2);
    let dir = if bytes_up_to(hh, 2) == 2 {
        hh
    } else {
        "00"
    };
    proof {
        crate::text::law_cut_is_longest_fitting_prefix(sha256@, 2);
    }
    cat5(dir, "/", sha256, ".", ext_for(content_type))
}

// Hashes

/// Names the SHA-256 hash of bytes.
pub uninterp spec fn sha256_of(bytes: Seq<u8>) -> Seq<u8>;

/// Hashes bytes with `Sha256::digest`, which depends on the bytes alone and gives 32 bytes.
#[verifier::external_body]
fn digest(bytes: &Vec<u8>) -> (r: Vec<u8>)
    ensures
        r@ == sha256_of(bytes@),
        r@.len() == 32,
{
    sha2::Sha256::digest(bytes).to_vec()
}

/// The character of four bits.
pub open spec fn hex_digit(n: int) -> char {
    if n < 10 {
        (48 + n) as char
    } else {
        (87 + n) as char
    }
}

/// Bytes in hexadecimal digits, two for each.
pub open spec fn hex_of(bytes: Seq<u8>) -> Seq<char>
    decreases bytes.len(),
{
    if bytes.len() == 0 {
        Seq::empty()
    } else {
        hex_of(bytes.drop_last()).push(hex_digit(bytes.last() as int / 16)).push(
            hex_digit(bytes.last() as int % 16),
        )
    }
}

fn to_hex_digit(n: u8) -> (c: char)
    requires
        n < 16,
    ensures
        c == hex_digit(n as int),
{
    if n < 10 {
        (48 + n) as char
    } else {
        (87 + n) as char
    }
}

/// Writes bytes in hexadecimal digits.
pub fn hex(bytes: &Vec<u8>) -> (r: String)
    ensures
        r@ == hex_of(bytes@),
{
    let mut out = String::new();
    let mut i: usize = 0;
    assert(bytes@.take(0) =~= Seq::empty());
    while i < bytes.len()
        invariant
            i <= bytes@.len(),
            out@ == hex_of(bytes@.take(i as int)),
        decreases bytes.len() - i,
    {
        assert(bytes@.take(i + 1).drop_last() =~= bytes@.take(i as int));
        push_char(&mut out, to_hex_digit(bytes[i] / 16));
        push_char(&mut out, to_hex_digit(bytes[i] % 16));
        i += 1;
    }
    assert(bytes@.take(i as int) =~= bytes@);
    out
}

/// Two hashes that differ are written differently.
pub proof fn law_hex_tells_apart(a: Seq<u8>, b: Seq<u8>)
    requires
        hex_of(a) == hex_of(b),
    ensures
        a == b,
    decreases a.len() + b.len(),
{
    lemma_hex_len(a);
    lemma_hex_len(b);
    if a.len() > 0 {
        let ha = hex_of(a);
        let hb = hex_of(b);
        let n = ha.len() as int;
        assert(ha[n - 1] == hb[n - 1]);
        assert(ha[n - 2] == hb[n - 2]);
        let x = a.last() as int;
        let y = b.last() as int;
        assert(x / 16 == y / 16 && x % 16 == y % 16);
        assert(ha.take(n - 2) =~= hex_of(a.drop_last()));
        assert(hb.take(n - 2) =~= hex_of(b.drop_last()));
        law_hex_tells_apart(a.drop_last(), b.drop_last());
        assert(a =~= a.drop_last().push(a.last()));
        assert(b =~= b.drop_last().push(b.last()));
    } else {
        assert(a =~= b);
    }
}

proof fn lemma_hex_len(a: Seq<u8>)
    ensures
        hex_of(a).len() == 2 * a.len(),
    decreases a.len(),
{
    if a.len() > 0 {
        lemma_hex_len(a.drop_last());
    }
}

/// The reference to an image: the hash of its bytes, its type and its size.
pub fn asset_ref(bytes: &Vec<u8>, content_type: &str) -> (r: AssetRef)
    ensures
        r@ == (AssetRefV {
            sha256: hex_of(sha256_of(bytes@)),
            content_type: content_type@,
            bytes: bytes@.len() as u64,
        }),
        r.sha256@.len() == 64,
{
    let d = digest(bytes);
    proof {
        lemma_hex_len(d@);
    }
    AssetRef {
        sha256: hex(&d),
        content_type: content_type.to_owned(),
        bytes: bytes.len() as u64,
    }
}

// Reuse

/// What tells that an ad has the image it had: the hash that the platform gave, else the name of
/// the file.
pub open spec fn identity_of(row: CreativeRowV) -> Option<Seq<char>> {
    match row.image_hash {
        Some(h) => Some("img:"@ + h),
        None => match row.image_basename {
            Some(b) => Some("url:"@ + b),
            None => None,
        },
    }
}

pub fn identity_key(row: &CreativeRow) -> (r: Option<String>)
    ensures
        opt_view(r) == identity_of(row@),
{
    match &row.image_hash {
        Some(h) => Some(cat2("img:", h.as_str())),
        None => match &row.image_basename {
            Some(b) => Some(cat2("url:", b.as_str())),
            None => None,
        },
    }
}

/// An image that an earlier snapshot refers to, and what it is told by.
#[derive(Debug)]
pub struct PriorAsset {
    pub key: String,
    pub asset: AssetRef,
}

#[verifier::ext_equal]
pub struct PriorAssetV {
    pub key: Seq<char>,
    pub asset: AssetRefV,
}

impl View for PriorAsset {
    type V = PriorAssetV;

    open spec fn view(&self) -> PriorAssetV {
        PriorAssetV { key: self.key@, asset: self.asset@ }
    }
}

pub open spec fn prior_view(v: Seq<PriorAsset>) -> Seq<PriorAssetV> {
    v.map_values(|p: PriorAsset| p@)
}

/// The images that the rows of a snapshot refer to.
pub open spec fn prior_of(rows: Seq<CreativeRowV>) -> Seq<PriorAssetV>
    decreases rows.len(),
{
    if rows.len() == 0 {
        Seq::empty()
    } else {
        let before = prior_of(rows.drop_last());
        match (identity_of(rows.last()), rows.last().asset) {
            (Some(key), Some(asset)) => before.push(PriorAssetV { key, asset }),
            _ => before,
        }
    }
}

fn copy_asset(a: &AssetRef) -> (r: AssetRef)
    ensures
        r@ == a@,
{
    AssetRef {
        sha256: a.sha256.clone(),
        content_type: a.content_type.clone(),
        bytes: a.bytes,
    }
}

/// Lists the images that a snapshot refers to.
pub fn prior_refs(file: &CreativesFile) -> (r: Vec<PriorAsset>)
    ensures
        prior_view(r@) == prior_of(rows_view(file.rows@)),
{
    let ghost all = rows_view(file.rows@);
    let mut out: Vec<PriorAsset> = Vec::new();
    let mut i: usize = 0;
    assert(prior_view(out@) =~= Seq::empty());
    assert(all.take(0) =~= Seq::empty());
    while i < file.rows.len()
        invariant
            i <= file.rows@.len(),
            all == rows_view(file.rows@),
            prior_view(out@) == prior_of(all.take(i as int)),
        decreases file.rows.len() - i,
    {
        assert(all.take(i + 1).drop_last() =~= all.take(i as int));
        assert(all[i as int] == file.rows@[i as int]@);
        match (identity_key(&file.rows[i]), &file.rows[i].asset) {
            (Some(key), Some(a)) => {
                let p = PriorAsset { key, asset: copy_asset(a) };
                assert(prior_view(out@.push(p)) =~= prior_view(out@).push(p@));
                out.push(p);
            },
            _ => {},
        }
        i += 1;
    }
    assert(all.take(i as int) =~= all);
    out
}

/// Whether one of the references has this key.
pub open spec fn has_key(v: Seq<PriorAssetV>, key: Seq<char>) -> bool {
    exists|k: int| 0 <= k < v.len() && (#[trigger] v[k]).key == key
}

/// Of the references those whose file is there, the first one for each key. `there` says of each
/// whether its file is.
pub open spec fn usable(refs: Seq<PriorAssetV>, there: Seq<bool>) -> Seq<PriorAssetV>
    decreases refs.len(),
{
    if refs.len() == 0 {
        Seq::empty()
    } else {
        let before = usable(refs.drop_last(), there);
        let n = refs.len() - 1;
        if n < there.len() && there[n] && !has_key(before, refs.last().key) {
            before.push(refs.last())
        } else {
            before
        }
    }
}

fn key_taken(v: &Vec<PriorAsset>, key: &str) -> (r: bool)
    ensures
        r == has_key(prior_view(v@), key@),
{
    let ghost all = prior_view(v@);
    let mut i: usize = 0;
    while i < v.len()
        invariant
            i <= v@.len(),
            all == prior_view(v@),
            forall|k: int| 0 <= k < i ==> (#[trigger] all[k]).key != key@,
        decreases v.len() - i,
    {
        assert(all[i as int] == v@[i as int]@);
        if same(v[i].key.as_str(), key) {
            return true;
        }
        i += 1;
    }
    false
}

/// The images that need not be fetched again.
pub fn prior_assets(refs: &Vec<PriorAsset>, there: &Vec<bool>) -> (r: Vec<PriorAsset>)
    ensures
        prior_view(r@) == usable(prior_view(refs@), there@),
{
    let ghost all = prior_view(refs@);
    let mut out: Vec<PriorAsset> = Vec::new();
    let mut i: usize = 0;
    assert(prior_view(out@) =~= Seq::empty());
    assert(all.take(0) =~= Seq::empty());
    while i < refs.len()
        invariant
            i <= refs@.len(),
            all == prior_view(refs@),
            prior_view(out@) == usable(all.take(i as int), there@),
        decreases refs.len() - i,
    {
        assert(all.take(i + 1).drop_last() =~= all.take(i as int));
        assert(all[i as int] == refs@[i as int]@);
        if i < there.len() && there[i] && !key_taken(&out, refs[i].key.as_str()) {
            let p = PriorAsset {
                key: refs[i].key.clone(),
                asset: copy_asset(&refs[i].asset),
            };
            assert(prior_view(out@.push(p)) =~= prior_view(out@).push(p@));
            out.push(p);
        }
        i += 1;
    }
    assert(all.take(i as int) =~= all);
    out
}

} // verus!
