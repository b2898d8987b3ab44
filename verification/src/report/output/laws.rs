//! What the files of a report are called.

use crate::report::output::{html_name_of, id_shape, json_name_of};
use vstd::prelude::*;

verus! {

/// The id of a report has the form of a UUID: the first 32 characters of a hash, in groups with
/// dashes between them.
pub proof fn law_ids_have_their_shape(h: Seq<char>)
    requires
        h.len() >= 32,
    ensures
        id_shape(h).len() == 36,
        id_shape(h)[8] == '-' && id_shape(h)[13] == '-' && id_shape(h)[18] == '-' && id_shape(h)[23]
            == '-',
        id_shape(h).subrange(0, 8) + id_shape(h).subrange(9, 13) + id_shape(h).subrange(14, 18)
            + id_shape(h).subrange(19, 23) + id_shape(h).subrange(24, 36) == h.take(32),
{
    reveal_strlit("-");
    let s = id_shape(h);
    assert(s.subrange(0, 8) =~= h.subrange(0, 8));
    assert(s.subrange(9, 13) =~= h.subrange(8, 12));
    assert(s.subrange(14, 18) =~= h.subrange(12, 16));
    assert(s.subrange(19, 23) =~= h.subrange(16, 20));
    assert(s.subrange(24, 36) =~= h.subrange(20, 32));
    assert(h.subrange(0, 8) + h.subrange(8, 12) + h.subrange(12, 16) + h.subrange(16, 20)
        + h.subrange(20, 32) =~= h.take(32));
}

/// The file of a report of one day has a fixed name, and that of several days names the first and
/// the last.
pub proof fn law_files_name_their_days(
    brand: Seq<char>,
    days: nat,
    since: Seq<char>,
    until: Seq<char>,
)
    ensures
        days <= 1 ==> json_name_of(days, since, until) == "creative-report.json"@,
        days > 1 ==> json_name_of(days, since, until) == "creative-report-"@ + since + "-to-"@
            + until + ".json"@,
        brand.is_prefix_of(html_name_of(brand, days, since, until)),
        ".html"@.is_suffix_of(html_name_of(brand, days, since, until)),
{
    reveal_strlit("creative-report");
    reveal_strlit("creative-report-");
    reveal_strlit("-");
    reveal_strlit(".json");
    reveal_strlit("creative-report.json");
    assert("creative-report"@ + Seq::<char>::empty() + ".json"@ =~= "creative-report.json"@);
    assert("creative-report"@ + ("-"@ + since + "-to-"@ + until) + ".json"@
        =~= "creative-report-"@ + since + "-to-"@ + until + ".json"@);
    let name = html_name_of(brand, days, since, until);
    assert(brand =~= name.subrange(0, brand.len() as int));
    assert(".html"@ =~= name.subrange(name.len() - ".html"@.len(), name.len() as int));
}

} // verus!
