//! The files of a report, and the id of the workspace to which it belongs.

use crate::dates::{date_shown, show_date};
use crate::error::Error;
use crate::fetch::assets::{asset_ref, hex_of, sha256_of};
use crate::strs::{cat2, cat3, cat5, cat6, chars_of, dec, decimal, decimal_wide, slice_text};
use vstd::prelude::*;

pub mod laws;
use vstd::utf8::encode_utf8;

verus! {

/// What the name of a file says of the days, where they are several.
pub open spec fn range_suffix(days: nat, since: Seq<char>, until: Seq<char>) -> Seq<char> {
    if days > 1 {
        "-"@ + since + "-to-"@ + until
    } else {
        Seq::empty()
    }
}

/// The name of the file of a report.
pub open spec fn json_name_of(days: nat, since: Seq<char>, until: Seq<char>) -> Seq<char> {
    "creative-report"@ + range_suffix(days, since, until) + ".json"@
}

pub fn json_name(days: u32, since: &str, until: &str) -> (r: String)
    ensures
        r@ == json_name_of(days as nat, since@, until@),
{
    if days > 1 {
        let r = cat6("creative-report", "-", since, "-to-", until, ".json");
        assert(r@ =~= json_name_of(days as nat, since@, until@));
        r
    } else {
        let r = cat2("creative-report", ".json");
        assert(r@ =~= json_name_of(days as nat, since@, until@));
        r
    }
}

/// The name of the page of a report.
pub open spec fn html_name_of(
    brand: Seq<char>,
    days: nat,
    since: Seq<char>,
    until: Seq<char>,
) -> Seq<char> {
    if days > 1 {
        brand + "-"@ + date_shown(since, "%d-%b"@) + "-to-"@ + date_shown(until, "%d-%b-%Y"@)
            + ".html"@
    } else {
        brand + "-Daily-"@ + date_shown(until, "%d-%b-%Y"@) + ".html"@
    }
}

pub fn html_name(brand: &str, days: u32, since: &str, until: &str) -> (r: String)
    ensures
        r@ == html_name_of(brand@, days as nat, since@, until@),
{
    let last = show_date(until, "%d-%b-%Y");
    if days > 1 {
        let first = show_date(since, "%d-%b");
        cat6(brand, "-", first.as_str(), "-to-", last.as_str(), ".html")
    } else {
        cat3(cat2(brand, "-Daily-").as_str(), last.as_str(), ".html")
    }
}

/// Reports of one day and of several never share a file.
pub proof fn law_ranges_have_their_own_file(days: nat, since: Seq<char>, until: Seq<char>)
    requires
        days > 1,
    ensures
        json_name_of(days, since, until) != json_name_of(1, since, until),
{
    reveal_strlit("-");
    reveal_strlit("-to-");
    assert(json_name_of(days, since, until).len() > json_name_of(1, since, until).len());
}

// Ids

/// A hash in the form of a UUID.
pub open spec fn id_shape(h: Seq<char>) -> Seq<char> {
    h.subrange(0, 8) + "-"@ + h.subrange(8, 12) + "-"@ + h.subrange(12, 16) + "-"@ + h.subrange(
        16,
        20,
    ) + "-"@ + h.subrange(20, 32)
}

/// The id that is made of a path, a time and the number of a process.
pub open spec fn minted(seed: Seq<char>, nanos: nat, pid: nat) -> Seq<char> {
    id_shape(hex_of(sha256_of(encode_utf8(seed + "|"@ + dec(nanos) + "|"@ + dec(pid)))))
}

fn bytes_of(s: &str) -> (r: Vec<u8>)
    ensures
        r@ == encode_utf8(s@),
{
    let bytes = s.as_bytes();
    let mut out: Vec<u8> = Vec::new();
    let mut i: usize = 0;
    while i < bytes.len()
        invariant
            i <= bytes@.len(),
            out@ == bytes@.take(i as int),
        decreases bytes.len() - i,
    {
        assert(bytes@.take(i + 1) =~= bytes@.take(i as int).push(bytes@[i as int]));
        out.push(bytes[i]);
        i += 1;
    }
    assert(bytes@.take(i as int) =~= bytes@);
    out
}

/// Makes the id of a workspace.
pub fn mint_id(seed: &str, nanos: u128, pid: u32) -> (r: String)
    ensures
        r@ == minted(seed@, nanos as nat, pid as nat),
        r@.len() == 36,
{
    let text = cat5(
        seed,
        "|",
        decimal_wide(nanos).as_str(),
        "|",
        decimal(pid as u64).as_str(),
    );
    let h = chars_of(asset_ref(&bytes_of(text.as_str()), "").sha256.as_str());
    let head = cat5(
        slice_text(&h, 0, 8).as_str(),
        "-",
        slice_text(&h, 8, 12).as_str(),
        "-",
        slice_text(&h, 12, 16).as_str(),
    );
    proof {
        reveal_strlit("-");
    }
    cat5(
        head.as_str(),
        "-",
        slice_text(&h, 16, 20).as_str(),
        "-",
        slice_text(&h, 20, 32).as_str(),
    )
}

/// The id of a workspace and whether it is new: the one that it has, or one that is made for it.
pub fn ensure_workspace_id(
    configured: bool,
    known: &Option<String>,
    data_root: &str,
    nanos: u128,
    pid: u32,
) -> (r: Result<(String, bool), Error>)
    ensures
        match r {
            Ok((id, new)) => configured && new == known.is_none() && id@ == (match *known {
                Some(k) => k@,
                None => minted(data_root@, nanos as nat, pid as nat),
            }),
            Err(e) => !configured && (e matches Error::Config(t) && t@
                == "no workspace configured - run /setup first"@),
        },
{
    if !configured {
        return Err(Error::Config("no workspace configured - run /setup first".to_owned()));
    }
    match known {
        Some(k) => Ok((k.clone(), false)),
        None => Ok((mint_id(data_root, nanos, pid), true)),
    }
}

} // verus!
