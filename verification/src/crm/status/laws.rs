//! What the status of a workspace says.

use crate::crm::status::{data_lines, missing_secrets, next_step, real_times, status_of, unbraced};
use crate::json::JsonV;
use crate::provider::lookup;
use crate::strs::{after_prefix, joined};
use vstd::prelude::*;

verus! {

/// A secret is missing just where a value refers to it and none is stored under its name.
pub proof fn law_missing_secrets_are_referred_to(
    values: Seq<(Seq<char>, Seq<char>)>,
    stored: Seq<(Seq<char>, Seq<char>)>,
    name: Seq<char>,
)
    ensures
        missing_secrets(values, stored).contains(name) <==> lookup(stored, name) is None && exists|
            k: int,
        |
            0 <= k < values.len() && after_prefix(unbraced((#[trigger] values[k]).1), "secret:"@)
                == Some(name),
    decreases values.len(),
{
    if values.len() > 0 {
        let rest = values.drop_last();
        let before = missing_secrets(rest, stored);
        let now = missing_secrets(values, stored);
        law_missing_secrets_are_referred_to(rest, stored, name);
        assert(forall|k: int| 0 <= k < rest.len() ==> rest[k] == #[trigger] values[k]);
        assert(forall|k: int| 0 <= k < rest.len() ==> #[trigger] rest[k] == values[k]);
        assert(values[values.len() - 1] == values.last());
        if now.contains(name) {
            let k = choose|k: int| 0 <= k < now.len() && now[k] == name;
            if k < before.len() {
                assert(before[k] == name);
            }
        }
        if before.contains(name) {
            let k = choose|k: int| 0 <= k < before.len() && before[k] == name;
            assert(now[k] == name);
        }
        if lookup(stored, name) is None && after_prefix(unbraced(values.last().1), "secret:"@)
            == Some(name) {
            assert(now[before.len() as int] == name);
        }
    }
}

/// The next step is to store what is missing; with nothing missing, to fetch, unless the latest
/// snapshot has the data; and then there is nothing to do.
pub proof fn law_next_step_is_the_most_pressing(
    missing: Seq<Seq<char>>,
    home: Seq<char>,
    latest: Seq<char>,
)
    ensures
        missing.len() > 0 ==> forall|h: Option<Seq<char>>, l: Option<Seq<char>>| #[trigger]
            next_step(missing, h, l) == "moneyball crm secret "@ + joined(
                missing,
                " && moneyball crm secret "@,
            ),
        next_step(Seq::empty(), None, Some(latest))
            == "moneyball crm fetch   (writes crm.json into today's snapshot)"@,
        next_step(Seq::empty(), None, None)
            == "moneyball crm fetch   (writes crm.json into today's snapshot)"@,
        home != latest ==> next_step(Seq::empty(), Some(home), Some(latest))
            == "moneyball crm fetch   (writes crm.json into today's snapshot)"@,
        next_step(Seq::empty(), Some(latest), Some(latest))
            == "up to date - moneyball report / brief will show the full funnel"@,
{
}

/// The data is told to be stale just where it is not in the latest snapshot; without any data that
/// is told.
pub proof fn law_stale_data_is_told(home: Seq<char>, latest: Option<Seq<char>>, crm: JsonV)
    ensures
        data_lines(None, latest, crm) == seq!["data:   no crm.json in any snapshot"@],
        data_lines(Some(home), latest, crm).len() == if latest == Some(home) {
            1nat
        } else {
            3
        },
        forall|l: Seq<char>|
            l != home ==> (#[trigger] data_lines(Some(home), Some(l), crm))[1]
                == "        STALE: the latest snapshot "@ + l + " has no crm.json - brief/report/"@,
{
}

/// The status tells the name of the description, whether all secrets are stored or which are
/// missing, the data, and last the next step.
pub proof fn law_status_has_its_lines(
    name: Seq<char>,
    missing: Seq<Seq<char>>,
    home: Option<Seq<char>>,
    latest: Option<Seq<char>>,
    crm: JsonV,
)
    ensures
        ({
            let s = status_of(name, missing, home, latest, crm);
            &&& s[0] == "spec:   crm.toml ("@ + name + ")"@
            &&& missing.len() == 0 ==> s[1] == "secret: stored"@
            &&& missing.len() > 0 ==> s[1] == "secret: MISSING ("@ + joined(missing, ", "@) + ")"@
            &&& s.subrange(2, s.len() - 1) == data_lines(home, latest, crm)
            &&& s.last() == "next:   "@ + next_step(missing, home, latest)
        }),
{
    let s = status_of(name, missing, home, latest, crm);
    assert(s.subrange(2, s.len() - 1) =~= data_lines(home, latest, crm));
}

/// The times that count are those that are not the least number.
pub proof fn law_real_times_are_given(times: Seq<i64>)
    ensures
        real_times(times) == times.filter(|t: i64| t != i64::MIN),
    decreases times.len(),
{
    reveal(Seq::filter);
    if times.len() > 0 {
        law_real_times_are_given(times.drop_last());
    }
}

} // verus!
