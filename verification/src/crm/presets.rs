//! The CRMs that are known: to connect one takes only its keys.

use crate::strs::{cat2, cat3, has_text, occurs_at, replace, replaced, replaced_from};
use vstd::prelude::*;

verus! {

/// One key that the user has to give, and where to find it.
#[derive(Debug)]
pub struct SecretPrompt {
    pub key: &'static str,
    pub label: &'static str,
    pub help: &'static str,
}

#[derive(Debug)]
pub struct Preset {
    pub id: &'static str,
    pub display: &'static str,
    /// The description; `{secret:<key>}` stands for the secret of that key.
    pub toml: &'static str,
    pub secrets: Vec<SecretPrompt>,
    pub note: &'static str,
}

/// The name under which the secret of a key is stored.
pub open spec fn stored_name(id: Seq<char>, key: Seq<char>) -> Seq<char> {
    id + "_"@ + key
}

pub open spec fn placeholder(key: Seq<char>) -> Seq<char> {
    "{secret:"@ + key + "}"@
}

/// What the placeholder of a key stands for.
pub open spec fn reference_to(id: Seq<char>, key: Seq<char>) -> Seq<char> {
    "secret:"@ + stored_name(id, key)
}

/// A description with the placeholders of the keys replaced by what they stand for, one key after
/// the other.
pub open spec fn rendered(toml: Seq<char>, id: Seq<char>, keys: Seq<Seq<char>>) -> Seq<char>
    decreases keys.len(),
{
    if keys.len() == 0 {
        toml
    } else {
        replaced(
            rendered(toml, id, keys.drop_last()),
            placeholder(keys.last()),
            reference_to(id, keys.last()),
        )
    }
}

/// A prompt: the key, what it is called and where it is found.
pub open spec fn prompts_view(v: Seq<SecretPrompt>) -> Seq<(Seq<char>, Seq<char>, Seq<char>)> {
    v.map_values(|s: SecretPrompt| (s.key@, s.label@, s.help@))
}

pub open spec fn keys_of(secrets: Seq<SecretPrompt>) -> Seq<Seq<char>> {
    secrets.map_values(|s: SecretPrompt| s.key@)
}

impl Preset {
    pub open spec fn rendering(&self) -> Seq<char> {
        rendered(self.toml@, self.id@, keys_of(self.secrets@))
    }

    /// The description with references to the stored secrets.
    pub fn render(&self) -> (r: String)
        ensures
            r@ == self.rendering(),
    {
        let ghost keys = keys_of(self.secrets@);
        let mut out = self.toml.to_owned();
        let mut i: usize = 0;
        assert(keys.take(0) =~= Seq::empty());
        while i < self.secrets.len()
            invariant
                i <= self.secrets@.len(),
                keys == keys_of(self.secrets@),
                out@ == rendered(self.toml@, self.id@, keys.take(i as int)),
            decreases self.secrets.len() - i,
        {
            assert(keys.take(i + 1).drop_last() =~= keys.take(i as int));
            assert(keys[i as int] == self.secrets@[i as int].key@);
            let from = cat3("{secret:", self.secrets[i].key, "}");
            let to = cat2("secret:", self.secret_name(&self.secrets[i]).as_str());
            proof {
                reveal_strlit("}");
                assert(from@.len() > 0);
            }
            out = replace(out.as_str(), from.as_str(), to.as_str());
            i += 1;
        }
        assert(keys.take(i as int) =~= keys);
        out
    }

    /// The name under which the secret of a prompt is stored.
    pub fn secret_name(&self, s: &SecretPrompt) -> (r: String)
        ensures
            r@ == stored_name(self.id@, s.key@),
    {
        cat3(self.id, "_", s.key)
    }
}

/// The description of LeadZump.
pub const LEADZUMP_TOML: &'static str = "name = \"leadzump\"\n\n[request]\nurl = \"https://leadzump.ai/api/entity/processor/tickets/eager/query?fetchOwners=false\"\nmethod = \"POST\"\nbody = '{\"condition\": null, \"eager\": true, \"size\": 200, \"page\": {page}}'\n\n[request.headers]\n\"appcode\" = \"leadzump\"\n\"clientcode\" = \"SYSTEM\"\n\"authorization\" = \"{secret:token}\"\n\n[paging]\nmode = \"page\"\nparam = \"page\"\nstart = 0\nsize = 200\n\n[map]\nroot = \"content\"\nad_id = \"adId.adId\"\nstage = \"stage.name\"\ndelivery = \"delivery\"\nfunnel = \"status.funnelStage\"\n\n[map.stage_map]\n\"Non Contactable\" = \"NonContactable\"\n";

/// The description of LeadSquared.
pub const LEADSQUARED_TOML: &'static str = "name = \"leadsquared\"\n\n[request]\nurl = \"https://api-in21.leadsquared.com/v2/LeadManagement.svc/Leads.Get\"\n\n[request.query]\naccessKey = \"{secret:access_key}\"\nsecretKey = \"{secret:secret_key}\"\nfromDate = \"{from_date}\"\ntoDate = \"{to_date}\"\n\n[paging]\nmode = \"page\"\nparam = \"pageIndex\"\nstart = 1\nsize_param = \"pageSize\"\nsize = 500\n\n[map]\nroot = \"\"\nad_id = \"mx_Ad_Id\"\nstage = \"ProspectStage\"\ndelivery = \"mx_Delivery_Time\"\n\n[map.stage_map]\n\"Qualified\" = \"Contactable\"\n\"Site Visit\" = \"Visit\"\n\"Won\" = \"Booking\"\n";

/// The presets. Each renders to a description without placeholders.
pub fn catalog() -> (r: Vec<Preset>)
    ensures
        r@.len() == 2,
        r@[0].id@ == "leadzump"@,
        r@[0].display@ == "LeadZump"@,
        r@[0].toml@ == LEADZUMP_TOML@,
        prompts_view(r@[0].secrets@) == seq![
            (
                "token"@,
                "API token"@,
                "the LeadZump auth token (same value your team uses as LEADZUMP_TOKEN)"@,
            ),
        ],
        r@[0].note@ == "pulls all tickets; pages of 200"@,
        r@[1].id@ == "leadsquared"@,
        r@[1].display@ == "LeadSquared"@,
        r@[1].toml@ == LEADSQUARED_TOML@,
        prompts_view(r@[1].secrets@) == seq![
            (
                "access_key"@,
                "Access Key"@,
                "LeadSquared: My Profile > Settings > API and Webhooks > Access Key"@,
            ),
            (
                "secret_key"@,
                "Secret Key"@,
                "shown next to the Access Key on the same page"@,
            ),
        ],
        r@[1].note@
            == "assumes the in21 region host and mx_* ad-attribution fields - the test run verifies both; if it fails, edit .moneyball/crm.toml (host/fields)"@,
        forall|i: int|
            0 <= i < r@.len() ==> is_filled(
                (#[trigger] r@[i]).rendering(),
                r@[i].id@,
                keys_of(r@[i].secrets@),
            ),
{
    let mut first: Vec<SecretPrompt> = Vec::new();
    first.push(
        SecretPrompt {
            key: "token",
            label: "API token",
            help: "the LeadZump auth token (same value your team uses as LEADZUMP_TOKEN)",
        },
    );
    let mut second: Vec<SecretPrompt> = Vec::new();
    second.push(
        SecretPrompt {
            key: "access_key",
            label: "Access Key",
            help: "LeadSquared: My Profile > Settings > API and Webhooks > Access Key",
        },
    );
    second.push(
        SecretPrompt {
            key: "secret_key",
            label: "Secret Key",
            help: "shown next to the Access Key on the same page",
        },
    );
    let mut out: Vec<Preset> = Vec::new();
    out.push(
        Preset {
            id: "leadzump",
            display: "LeadZump",
            toml: LEADZUMP_TOML,
            secrets: first,
            note: "pulls all tickets; pages of 200",
        },
    );
    out.push(
        Preset {
            id: "leadsquared",
            display: "LeadSquared",
            toml: LEADSQUARED_TOML,
            secrets: second,
            note: "assumes the in21 region host and mx_* ad-attribution fields - the test run verifies both; if it fails, edit .moneyball/crm.toml (host/fields)",
        },
    );
    proof {
        law_leadzump_renders_whole();
        law_leadsquared_renders_whole();
        assert(keys_of(out@[0].secrets@) =~= seq!["token"@]);
        assert(keys_of(out@[1].secrets@) =~= seq!["access_key"@, "secret_key"@]);
    }
    out
}

// What the presets render

/// Whether the text of a placeholder may start at `k`.
pub open spec fn opens_at(s: Seq<char>, k: int) -> bool {
    0 <= k && k + 1 < s.len() && s[k] == '{' && s[k + 1] == 's'
}

spec fn quiet(s: Seq<char>, i: int, j: int) -> bool
    decreases j - i,
{
    i >= j || (!opens_at(s, i) && quiet(s, i + 1, j))
}

proof fn lemma_quiet(s: Seq<char>, i: int, j: int)
    requires
        quiet(s, i, j),
    ensures
        forall|k: int| i <= k < j ==> !#[trigger] opens_at(s, k),
    decreases j - i,
{
    if i < j {
        lemma_quiet(s, i + 1, j);
    }
}

/// Where the placeholder of LeadZump stands.
#[verifier::spinoff_prover]
#[verifier::rlimit(60)]
proof fn lemma_leadzump_text()
    ensures
        LEADZUMP_TOML@.len() == 537,
        occurs_at(LEADZUMP_TOML@, placeholder("token"@), 290),
        LEADZUMP_TOML@[289] == '"',
        forall|k: int| #[trigger] opens_at(LEADZUMP_TOML@, k) ==> k == 290,
{
    reveal_strlit("name = \"leadzump\"\n\n[request]\nurl = \"https://leadzump.ai/api/entity/processor/tickets/eager/query?fetchOwners=false\"\nmethod = \"POST\"\nbody = '{\"condition\": null, \"eager\": true, \"size\": 200, \"page\": {page}}'\n\n[request.headers]\n\"appcode\" = \"leadzump\"\n\"clientcode\" = \"SYSTEM\"\n\"authorization\" = \"{secret:token}\"\n\n[paging]\nmode = \"page\"\nparam = \"page\"\nstart = 0\nsize = 200\n\n[map]\nroot = \"content\"\nad_id = \"adId.adId\"\nstage = \"stage.name\"\ndelivery = \"delivery\"\nfunnel = \"status.funnelStage\"\n\n[map.stage_map]\n\"Non Contactable\" = \"NonContactable\"\n");
    let s = LEADZUMP_TOML@;
    assert(quiet(s, 0, 60)) by {
        reveal_with_fuel(quiet, 61);
    }
    lemma_quiet(s, 0, 60);
    assert(quiet(s, 60, 120)) by {
        reveal_with_fuel(quiet, 61);
    }
    lemma_quiet(s, 60, 120);
    assert(quiet(s, 120, 180)) by {
        reveal_with_fuel(quiet, 61);
    }
    lemma_quiet(s, 120, 180);
    assert(quiet(s, 180, 240)) by {
        reveal_with_fuel(quiet, 61);
    }
    lemma_quiet(s, 180, 240);
    assert(quiet(s, 240, 290)) by {
        reveal_with_fuel(quiet, 51);
    }
    lemma_quiet(s, 240, 290);
    assert(quiet(s, 291, 351)) by {
        reveal_with_fuel(quiet, 61);
    }
    lemma_quiet(s, 291, 351);
    assert(quiet(s, 351, 411)) by {
        reveal_with_fuel(quiet, 61);
    }
    lemma_quiet(s, 351, 411);
    assert(quiet(s, 411, 471)) by {
        reveal_with_fuel(quiet, 61);
    }
    lemma_quiet(s, 411, 471);
    assert(quiet(s, 471, 531)) by {
        reveal_with_fuel(quiet, 61);
    }
    lemma_quiet(s, 471, 531);
    assert(quiet(s, 531, 537)) by {
        reveal_with_fuel(quiet, 7);
    }
    lemma_quiet(s, 531, 537);
    assert(occurs_at(s, placeholder("token"@), 290)) by {
        reveal_strlit("{secret:");
        reveal_strlit("token");
        reveal_strlit("}");
        assert(s.subrange(290, 304) =~= placeholder("token"@));
    }
}

/// Where the placeholders of LeadSquared stand.
#[verifier::spinoff_prover]
#[verifier::rlimit(60)]
proof fn lemma_leadsquared_text()
    ensures
        LEADSQUARED_TOML@.len() == 501,
        occurs_at(LEADSQUARED_TOML@, placeholder("access_key"@), 135),
        LEADSQUARED_TOML@[134] == '"',
        occurs_at(LEADSQUARED_TOML@, placeholder("secret_key"@), 169),
        LEADSQUARED_TOML@[168] == '"',
        forall|k: int| #[trigger] opens_at(LEADSQUARED_TOML@, k) ==> k == 135 || k == 169,
{
    reveal_strlit("name = \"leadsquared\"\n\n[request]\nurl = \"https://api-in21.leadsquared.com/v2/LeadManagement.svc/Leads.Get\"\n\n[request.query]\naccessKey = \"{secret:access_key}\"\nsecretKey = \"{secret:secret_key}\"\nfromDate = \"{from_date}\"\ntoDate = \"{to_date}\"\n\n[paging]\nmode = \"page\"\nparam = \"pageIndex\"\nstart = 1\nsize_param = \"pageSize\"\nsize = 500\n\n[map]\nroot = \"\"\nad_id = \"mx_Ad_Id\"\nstage = \"ProspectStage\"\ndelivery = \"mx_Delivery_Time\"\n\n[map.stage_map]\n\"Qualified\" = \"Contactable\"\n\"Site Visit\" = \"Visit\"\n\"Won\" = \"Booking\"\n");
    let s = LEADSQUARED_TOML@;
    assert(quiet(s, 0, 60)) by {
        reveal_with_fuel(quiet, 61);
    }
    lemma_quiet(s, 0, 60);
    assert(quiet(s, 60, 120)) by {
        reveal_with_fuel(quiet, 61);
    }
    lemma_quiet(s, 60, 120);
    assert(quiet(s, 120, 135)) by {
        reveal_with_fuel(quiet, 16);
    }
    lemma_quiet(s, 120, 135);
    assert(quiet(s, 136, 169)) by {
        reveal_with_fuel(quiet, 34);
    }
    lemma_quiet(s, 136, 169);
    assert(quiet(s, 170, 230)) by {
        reveal_with_fuel(quiet, 61);
    }
    lemma_quiet(s, 170, 230);
    assert(quiet(s, 230, 290)) by {
        reveal_with_fuel(quiet, 61);
    }
    lemma_quiet(s, 230, 290);
    assert(quiet(s, 290, 350)) by {
        reveal_with_fuel(quiet, 61);
    }
    lemma_quiet(s, 290, 350);
    assert(quiet(s, 350, 410)) by {
        reveal_with_fuel(quiet, 61);
    }
    lemma_quiet(s, 350, 410);
    assert(quiet(s, 410, 470)) by {
        reveal_with_fuel(quiet, 61);
    }
    lemma_quiet(s, 410, 470);
    assert(quiet(s, 470, 501)) by {
        reveal_with_fuel(quiet, 32);
    }
    lemma_quiet(s, 470, 501);
    assert(occurs_at(s, placeholder("access_key"@), 135)) by {
        reveal_strlit("{secret:");
        reveal_strlit("access_key");
        reveal_strlit("}");
        assert(s.subrange(135, 154) =~= placeholder("access_key"@));
    }
    assert(occurs_at(s, placeholder("secret_key"@), 169)) by {
        reveal_strlit("{secret:");
        reveal_strlit("secret_key");
        reveal_strlit("}");
        assert(s.subrange(169, 188) =~= placeholder("secret_key"@));
    }
}

proof fn lemma_nothing_replaced(s: Seq<char>, p: Seq<char>, q: Seq<char>, from: int)
    requires
        0 <= from <= s.len(),
        p.len() > 0,
        forall|k: int| from <= k < s.len() ==> !#[trigger] occurs_at(s, p, k),
    ensures
        replaced_from(s, p, q, from) == s.skip(from),
    decreases s.len() - from,
{
    if from < s.len() {
        assert(!occurs_at(s, p, from));
        lemma_nothing_replaced(s, p, q, from + 1);
        assert(seq![s[from]] + s.skip(from + 1) =~= s.skip(from));
    } else {
        assert(s.skip(from) =~= Seq::empty());
    }
}

proof fn lemma_replaced_at(s: Seq<char>, p: Seq<char>, q: Seq<char>, a: int, from: int)
    requires
        0 <= from <= a,
        p.len() > 0,
        occurs_at(s, p, a),
        forall|k: int| 0 <= k < s.len() && k != a ==> !#[trigger] occurs_at(s, p, k),
    ensures
        replaced_from(s, p, q, from) == s.subrange(from, a) + q + s.skip(a + p.len()),
    decreases a - from,
{
    if from < a {
        assert(!occurs_at(s, p, from));
        lemma_replaced_at(s, p, q, a, from + 1);
        assert(seq![s[from]] + (s.subrange(from + 1, a) + q + s.skip(a + p.len()))
            =~= s.subrange(from, a) + q + s.skip(a + p.len()));
    } else {
        lemma_nothing_replaced(s, p, q, a + p.len());
        assert(s.subrange(a, a) + q =~= q);
    }
}

/// A placeholder that stands once is replaced there, and of the places where another may start only
/// `b` is left, moved by what the text grew.
proof fn lemma_filled(s: Seq<char>, p: Seq<char>, q: Seq<char>, a: int, b: int)
    requires
        occurs_at(s, p, a),
        p.len() >= 2,
        p[0] == '{',
        p[1] == 's',
        0 < a,
        s[a - 1] != '{',
        q.len() > 0,
        !q.contains('{'),
        forall|k: int| #[trigger] opens_at(s, k) ==> k == a || k == b,
        b < 0 || (b >= a + p.len() && !occurs_at(s, p, b)),
    ensures
        replaced(s, p, q) == s.take(a) + q + s.skip(a + p.len()),
        forall|k: int| #[trigger]
            opens_at(replaced(s, p, q), k) ==> k == b - p.len() + q.len() && b >= 0,
        occurs_at(replaced(s, p, q), q, a),
{
    assert forall|k: int| 0 <= k < s.len() && k != a implies !#[trigger] occurs_at(s, p, k) by {
        if occurs_at(s, p, k) {
            assert(s.subrange(k, k + p.len())[0] == s[k]);
            assert(s.subrange(k, k + p.len())[1] == s[k + 1]);
            assert(opens_at(s, k));
        }
    }
    lemma_replaced_at(s, p, q, a, 0);
    let r = replaced(s, p, q);
    assert(s.subrange(0, a) =~= s.take(a));
    assert(r == s.take(a) + q + s.skip(a + p.len()));
    assert(r.subrange(a, a + q.len()) =~= q);
    let d = p.len() - q.len();
    assert forall|k: int| #[trigger] opens_at(r, k) implies k == b - d && b >= 0 by {
        if k < a - 1 {
            assert(r[k] == s[k] && r[k + 1] == s[k + 1]);
            assert(opens_at(s, k));
        } else if k < a {
            assert(r[k] == s[a - 1]);
        } else if k < a + q.len() {
            assert(r[k] == q[k - a]);
            assert(q.contains(q[k - a]));
        } else {
            assert(r[k] == s[k + d] && r[k + 1] == s[k + 1 + d]);
            assert(opens_at(s, k + d));
        }
    }
}

/// Whether a description has no placeholder left, and holds the references to the keys.
pub open spec fn is_filled(r: Seq<char>, id: Seq<char>, keys: Seq<Seq<char>>) -> bool {
    &&& !has_text(r, "{secret:"@)
    &&& forall|i: int| 0 <= i < keys.len() ==> has_text(r, reference_to(id, #[trigger] keys[i]))
}

proof fn lemma_no_placeholder(r: Seq<char>)
    requires
        forall|k: int| !#[trigger] opens_at(r, k),
    ensures
        !has_text(r, "{secret:"@),
{
    reveal_strlit("{secret:");
    let p = "{secret:"@;
    assert forall|k: int| !occurs_at(r, p, k) by {
        if occurs_at(r, p, k) {
            assert(r.subrange(k, k + p.len())[0] == r[k]);
            assert(r.subrange(k, k + p.len())[1] == r[k + 1]);
            assert(opens_at(r, k));
        }
    }
}

/// The preset of LeadZump renders to its description with the reference in place of the one
/// placeholder and all else kept, so that no placeholder is left.
pub proof fn law_leadzump_renders_whole()
    ensures
        ({
            let id = "leadzump"@;
            let p = placeholder("token"@);
            let r = rendered(LEADZUMP_TOML@, id, seq!["token"@]);
            &&& is_filled(r, id, seq!["token"@])
            &&& exists|a: int| #[trigger]
                occurs_at(LEADZUMP_TOML@, p, a) && r == LEADZUMP_TOML@.take(a) + reference_to(
                    id,
                    "token"@,
                ) + LEADZUMP_TOML@.skip(a + p.len())
        }),
{
    lemma_leadzump_text();
    let s = LEADZUMP_TOML@;
    let keys = seq!["token"@];
    let p = placeholder("token"@);
    let q = reference_to("leadzump"@, "token"@);
    reveal_strlit("{secret:");
    reveal_strlit("token");
    reveal_strlit("}");
    reveal_strlit("secret:");
    reveal_strlit("leadzump");
    reveal_strlit("_");
    assert(keys.drop_last() =~= Seq::empty());
    reveal_with_fuel(rendered, 2);
    let r = rendered(s, "leadzump"@, keys);
    assert(r == replaced(s, p, q));
    lemma_filled(s, p, q, 290, -1);
    lemma_no_placeholder(r);
    assert(has_text(r, q));
}

/// The preset of LeadSquared renders to its description with the references in place of the two
/// placeholders, so that none is left.
pub proof fn law_leadsquared_renders_whole()
    ensures
        ({
            let id = "leadsquared"@;
            let keys = seq!["access_key"@, "secret_key"@];
            is_filled(rendered(LEADSQUARED_TOML@, id, keys), id, keys)
        }),
{
    lemma_leadsquared_text();
    let s = LEADSQUARED_TOML@;
    let id = "leadsquared"@;
    let keys = seq!["access_key"@, "secret_key"@];
    let p1 = placeholder("access_key"@);
    let q1 = reference_to(id, "access_key"@);
    let p2 = placeholder("secret_key"@);
    let q2 = reference_to(id, "secret_key"@);
    reveal_strlit("{secret:");
    reveal_strlit("access_key");
    reveal_strlit("secret_key");
    reveal_strlit("}");
    reveal_strlit("secret:");
    reveal_strlit("leadsquared");
    reveal_strlit("_");
    assert(keys.drop_last() =~= seq!["access_key"@]);
    assert(keys.drop_last().drop_last() =~= Seq::empty());
    reveal_with_fuel(rendered, 3);
    let r1 = replaced(s, p1, q1);
    let r = rendered(s, id, keys);
    assert(r == replaced(r1, p2, q2));
    assert(p2[8] == 's' && p1[8] == 'a');
    assert(!occurs_at(s, p1, 169)) by {
        assert(s.subrange(169, 169int + p2.len())[8] == p2[8]);
    }
    lemma_filled(s, p1, q1, 135, 169);
    let b = 169 - p1.len() + q1.len();
    assert(r1.subrange(b, b + p2.len()) =~= s.subrange(169, 169int + p2.len()));
    assert(r1[b - 1] == s[169 - 1]);
    lemma_filled(r1, p2, q2, b, -1);
    lemma_no_placeholder(r);
    assert(r.subrange(135, 135int + q1.len()) =~= q1);
    assert(occurs_at(r, q1, 135));
    assert(has_text(r, q1));
    assert(has_text(r, q2));
}

} // verus!
