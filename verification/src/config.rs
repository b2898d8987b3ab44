//! The configuration of a workspace, and where its files lie.

use crate::error::Error;
use crate::json::{
    json_parsed, lemma_list_view, list_in, list_view, member, opt_json, pairs_view, text_in, Json,
    JsonV,
};
use crate::product::Product;
use crate::provider::{lookup, stored, TextMap};
use crate::records::{
    field, field_of, flag_field, flag_or_missing, is_record, record, texts_field, texts_or_missing,
};
use crate::snapshot::list_dates;
use crate::strs::{cat2, cat3, ends_with, opt_view, push_text, starts_with, views};
use vstd::prelude::*;

pub mod laws;

verus! {

/// The directory of a workspace that holds what the program keeps.
pub const DOT_DIR: &'static str = ".moneyball";

// The CRM

/// Where a ticket names its ad and its adset.
#[derive(Debug)]
pub struct CrmJoinKeys {
    pub ad_id: String,
    pub adset_id: String,
}

#[verifier::ext_equal]
pub struct CrmJoinKeysV {
    pub ad_id: Seq<char>,
    pub adset_id: Seq<char>,
}

impl View for CrmJoinKeys {
    type V = CrmJoinKeysV;

    open spec fn view(&self) -> CrmJoinKeysV {
        CrmJoinKeysV { ad_id: self.ad_id@, adset_id: self.adset_id@ }
    }
}

impl Default for CrmJoinKeys {
    fn default() -> (r: Self)
        ensures
            r@ == (CrmJoinKeysV { ad_id: Seq::empty(), adset_id: Seq::empty() }),
    {
        CrmJoinKeys { ad_id: String::new(), adset_id: String::new() }
    }
}

/// What is configured of the CRM.
#[derive(Debug)]
pub struct CrmConfig {
    pub name: String,
    pub stages: Vec<String>,
    pub qualified_stage: String,
    pub join_keys: CrmJoinKeys,
    pub bucket_by_delivery: bool,
}

#[verifier::ext_equal]
pub struct CrmConfigV {
    pub name: Seq<char>,
    pub stages: Seq<Seq<char>>,
    pub qualified_stage: Seq<char>,
    pub join_keys: CrmJoinKeysV,
    pub bucket_by_delivery: bool,
}

impl View for CrmConfig {
    type V = CrmConfigV;

    open spec fn view(&self) -> CrmConfigV {
        CrmConfigV {
            name: self.name@,
            stages: views(self.stages@),
            qualified_stage: self.qualified_stage@,
            join_keys: self.join_keys@,
            bucket_by_delivery: self.bucket_by_delivery,
        }
    }
}

/// A CRM of which nothing is configured.
pub open spec fn no_crm() -> CrmConfigV {
    CrmConfigV {
        name: Seq::empty(),
        stages: Seq::empty(),
        qualified_stage: Seq::empty(),
        join_keys: CrmJoinKeysV { ad_id: Seq::empty(), adset_id: Seq::empty() },
        bucket_by_delivery: false,
    }
}

impl Default for CrmConfig {
    fn default() -> (r: Self)
        ensures
            r@ == no_crm(),
    {
        let r = CrmConfig {
            name: String::new(),
            stages: Vec::new(),
            qualified_stage: String::new(),
            join_keys: CrmJoinKeys { ad_id: String::new(), adset_id: String::new() },
            bucket_by_delivery: false,
        };
        assert(views(r.stages@) =~= Seq::empty());
        r
    }
}

/// The stages of a ticket, from the first to the last, where none are configured.
pub open spec fn stages_by_default() -> Seq<Seq<char>> {
    seq!["Lost"@, "NonContactable"@, "Contactable"@, "Visit"@, "Booking"@]
}

fn default_stages() -> (r: Vec<String>)
    ensures
        views(r@) == stages_by_default(),
{
    let mut v: Vec<String> = Vec::new();
    push_text(&mut v, "Lost".to_owned());
    push_text(&mut v, "NonContactable".to_owned());
    push_text(&mut v, "Contactable".to_owned());
    push_text(&mut v, "Visit".to_owned());
    push_text(&mut v, "Booking".to_owned());
    assert(views(v@) =~= stages_by_default());
    v
}

/// A text, or another one where it is missing; anything but a text fails.
pub open spec fn text_or(o: Option<JsonV>, other: Seq<char>) -> Option<Seq<char>> {
    match o {
        None => Some(other),
        Some(JsonV::Text(s)) => Some(s),
        Some(_) => None,
    }
}

fn text_field_or(o: Option<&Json>, other: &str) -> (r: Option<String>)
    ensures
        opt_view(r) == text_or(opt_json(o), other@),
{
    match o {
        None => Some(other.to_owned()),
        Some(j) => match j {
            Json::Text(s) => Some(s.clone()),
            _ => None,
        },
    }
}

/// The join keys that a document holds; a path that is missing has a default.
pub open spec fn join_keys_of(j: JsonV) -> Option<CrmJoinKeysV> {
    match (
        text_or(field(j, "ad_id"@, 0), "adId.adId"@),
        text_or(field(j, "adset_id"@, 1), "adsetId.adsetId"@),
    ) {
        (Some(ad_id), Some(adset_id)) => if is_record(j, 2) {
            Some(CrmJoinKeysV { ad_id, adset_id })
        } else {
            None
        },
        _ => None,
    }
}

/// Join keys that may be missing, and are empty then.
pub open spec fn opt_join_keys_of(o: Option<JsonV>) -> Option<CrmJoinKeysV> {
    match o {
        None => Some(CrmJoinKeysV { ad_id: Seq::empty(), adset_id: Seq::empty() }),
        Some(j) => join_keys_of(j),
    }
}

fn read_join_keys(o: Option<&Json>) -> (r: Option<CrmJoinKeys>)
    ensures
        match r {
            Some(k) => opt_join_keys_of(opt_json(o)) == Some(k@),
            None => opt_join_keys_of(opt_json(o)) is None,
        },
{
    match o {
        None => Some(CrmJoinKeys { ad_id: String::new(), adset_id: String::new() }),
        Some(j) => {
            if !record(j, 2) {
                return None;
            }
            match (
                text_field_or(field_of(j, "ad_id", 0), "adId.adId"),
                text_field_or(field_of(j, "adset_id", 1), "adsetId.adsetId"),
            ) {
                (Some(ad_id), Some(adset_id)) => Some(CrmJoinKeys { ad_id, adset_id }),
                _ => None,
            }
        },
    }
}

pub open spec fn stages_of(o: Option<JsonV>) -> Option<Seq<Seq<char>>> {
    match o {
        None => Some(stages_by_default()),
        Some(_) => texts_or_missing(o),
    }
}

/// What a document configures of the CRM; what is missing has a default.
pub open spec fn crm_config_of(j: JsonV) -> Option<CrmConfigV> {
    match (
        text_or(field(j, "name"@, 0), "custom"@),
        stages_of(field(j, "stages"@, 1)),
        text_or(field(j, "qualified_stage"@, 2), "Contactable"@),
        opt_join_keys_of(field(j, "join_keys"@, 3)),
        flag_or_missing(field(j, "bucket_by_delivery"@, 4)),
    ) {
        (
            Some(name),
            Some(stages),
            Some(qualified_stage),
            Some(join_keys),
            Some(bucket_by_delivery),
        ) => if is_record(j, 5) {
            Some(
                CrmConfigV { name, stages, qualified_stage, join_keys, bucket_by_delivery },
            )
        } else {
            None
        },
        _ => None,
    }
}

/// Reads what is configured of the CRM.
pub fn read_crm_config(j: &Json) -> (r: Option<CrmConfig>)
    ensures
        match r {
            Some(c) => crm_config_of(j@) == Some(c@),
            None => crm_config_of(j@) is None,
        },
{
    if !record(j, 5) {
        return None;
    }
    let stages = match field_of(j, "stages", 1) {
        None => Some(default_stages()),
        Some(l) => texts_field(Some(l)),
    };
    match (
        text_field_or(field_of(j, "name", 0), "custom"),
        stages,
        text_field_or(field_of(j, "qualified_stage", 2), "Contactable"),
        read_join_keys(field_of(j, "join_keys", 3)),
        flag_field(field_of(j, "bucket_by_delivery", 4)),
    ) {
        (
            Some(name),
            Some(stages),
            Some(qualified_stage),
            Some(join_keys),
            Some(bucket_by_delivery),
        ) => Some(CrmConfig { name, stages, qualified_stage, join_keys, bucket_by_delivery }),
        _ => None,
    }
}

// The workspace

/// The configuration of a workspace. A number is kept as its text.
#[derive(Debug)]
pub struct WorkspaceConfig {
    pub products: Vec<Product>,
    /// How many qualified leads each product is to get.
    pub goals: TextMap,
    /// What a qualified lead may cost.
    pub target_rs_per_q: Option<String>,
    pub crm: CrmConfig,
}

#[verifier::ext_equal]
pub struct WorkspaceConfigV {
    pub products: Seq<(Seq<char>, Seq<char>)>,
    pub goals: Seq<(Seq<char>, Seq<char>)>,
    pub target_rs_per_q: Option<Seq<char>>,
    pub crm: CrmConfigV,
}

pub open spec fn products_view(v: Seq<Product>) -> Seq<(Seq<char>, Seq<char>)> {
    v.map_values(|p: Product| (p.name@, p.ad_account@))
}

impl View for WorkspaceConfig {
    type V = WorkspaceConfigV;

    open spec fn view(&self) -> WorkspaceConfigV {
        WorkspaceConfigV {
            products: products_view(self.products@),
            goals: self.goals@,
            target_rs_per_q: opt_view(self.target_rs_per_q),
            crm: self.crm@,
        }
    }
}

/// The product that a document holds: its name and its account.
pub open spec fn product_of(j: JsonV) -> Option<(Seq<char>, Seq<char>)> {
    match (field(j, "name"@, 0), field(j, "ad_account"@, 1)) {
        (Some(JsonV::Text(name)), Some(JsonV::Text(account))) => if is_record(j, 2) {
            Some((name, account))
        } else {
            None
        },
        _ => None,
    }
}

/// The products of a list, where every one reads.
pub open spec fn products_of(items: Seq<JsonV>) -> Option<Seq<(Seq<char>, Seq<char>)>>
    decreases items.len(),
{
    if items.len() == 0 {
        Some(Seq::empty())
    } else {
        match (products_of(items.drop_last()), product_of(items.last())) {
            (Some(before), Some(p)) => Some(before.push(p)),
            _ => None,
        }
    }
}

/// The texts of the numbers of a table, where every value is a number.
pub open spec fn numbers_of(pairs: Seq<(Seq<char>, JsonV)>) -> Option<Seq<(Seq<char>, Seq<char>)>>
    decreases pairs.len(),
{
    if pairs.len() == 0 {
        Some(Seq::empty())
    } else {
        match (numbers_of(pairs.drop_last()), pairs.last().1) {
            (Some(before), JsonV::Number(n)) => Some(stored(before, pairs.last().0, n.text)),
            _ => None,
        }
    }
}

pub open spec fn goals_of(o: Option<JsonV>) -> Option<Seq<(Seq<char>, Seq<char>)>> {
    match o {
        None => Some(Seq::empty()),
        Some(JsonV::Object(pairs)) => numbers_of(pairs),
        Some(_) => None,
    }
}

/// A number that may be missing; the outer option says whether it reads.
pub open spec fn opt_number_of(o: Option<JsonV>) -> Option<Option<Seq<char>>> {
    match o {
        None => Some(None),
        Some(JsonV::Number(n)) => Some(Some(n.text)),
        Some(_) => None,
    }
}

pub open spec fn opt_crm_of(o: Option<JsonV>) -> Option<CrmConfigV> {
    match o {
        None => Some(no_crm()),
        Some(j) => crm_config_of(j),
    }
}

/// The configuration that a document holds.
pub open spec fn workspace_of(j: JsonV) -> Option<WorkspaceConfigV> {
    match list_in(field(j, "products"@, 0)) {
        Some(items) => match (
            products_of(items),
            goals_of(field(j, "goals"@, 1)),
            opt_number_of(field(j, "target_rs_per_q"@, 2)),
            opt_crm_of(field(j, "crm"@, 3)),
        ) {
            (Some(products), Some(goals), Some(target_rs_per_q), Some(crm)) => if is_record(j, 4) {
                Some(WorkspaceConfigV { products, goals, target_rs_per_q, crm })
            } else {
                None
            },
            _ => None,
        },
        None => None,
    }
}

fn read_product(j: &Json) -> (r: Option<Product>)
    ensures
        match r {
            Some(p) => product_of(j@) == Some((p.name@, p.ad_account@)),
            None => product_of(j@) is None,
        },
{
    if !record(j, 2) {
        return None;
    }
    match (field_of(j, "name", 0), field_of(j, "ad_account", 1)) {
        (Some(n), Some(a)) => match (n, a) {
            (Json::Text(name), Json::Text(account)) => Some(
                Product { name: name.clone(), ad_account: account.clone() },
            ),
            _ => None,
        },
        _ => None,
    }
}

proof fn lemma_products_prefix(items: Seq<JsonV>, n: int)
    requires
        0 <= n <= items.len(),
        products_of(items.take(n)) is None,
    ensures
        products_of(items) is None,
    decreases items.len() - n,
{
    if n < items.len() {
        assert(items.take(n + 1).drop_last() =~= items.take(n));
        lemma_products_prefix(items, n + 1);
    } else {
        assert(items.take(n) =~= items);
    }
}

fn read_products(items: &Vec<Json>) -> (r: Option<Vec<Product>>)
    ensures
        match r {
            Some(v) => products_of(list_view(items@)) == Some(products_view(v@)),
            None => products_of(list_view(items@)) is None,
        },
{
    let ghost all = list_view(items@);
    let mut out: Vec<Product> = Vec::new();
    let mut i: usize = 0;
    assert(products_view(out@) =~= Seq::empty());
    assert(all.take(0) =~= Seq::empty());
    while i < items.len()
        invariant
            i <= items@.len(),
            all == list_view(items@),
            products_of(all.take(i as int)) == Some(products_view(out@)),
        decreases items.len() - i,
    {
        assert(all.take(i + 1).drop_last() =~= all.take(i as int));
        assert(all[i as int] == items@[i as int]@);
        match read_product(&items[i]) {
            Some(p) => {
                assert(products_view(out@.push(p)) =~= products_view(out@).push(
                    (p.name@, p.ad_account@),
                ));
                out.push(p);
            },
            None => {
                proof {
                    lemma_products_prefix(all, i + 1);
                }
                return None;
            },
        }
        i += 1;
    }
    assert(all.take(i as int) =~= all);
    Some(out)
}

proof fn lemma_numbers_prefix(pairs: Seq<(Seq<char>, JsonV)>, n: int)
    requires
        0 <= n <= pairs.len(),
        numbers_of(pairs.take(n)) is None,
    ensures
        numbers_of(pairs) is None,
    decreases pairs.len() - n,
{
    if n < pairs.len() {
        assert(pairs.take(n + 1).drop_last() =~= pairs.take(n));
        lemma_numbers_prefix(pairs, n + 1);
    } else {
        assert(pairs.take(n) =~= pairs);
    }
}

fn read_goals(o: Option<&Json>) -> (r: Option<TextMap>)
    ensures
        match r {
            Some(m) => goals_of(opt_json(o)) == Some(m@) && m.wf(),
            None => goals_of(opt_json(o)) is None,
        },
{
    let mut out = TextMap::new();
    match o {
        None => Some(out),
        Some(j) => {
            proof {
                lemma_list_view(*j);
            }
            match j {
                Json::Object(pairs) => {
                    let ghost all = pairs_view(pairs@);
                    let mut i: usize = 0;
                    assert(all.take(0) =~= Seq::empty());
                    while i < pairs.len()
                        invariant
                            i <= pairs@.len(),
                            all == pairs_view(pairs@),
                            goals_of(opt_json(o)) == numbers_of(all),
                            numbers_of(all.take(i as int)) == Some(out@),
                            out.wf(),
                        decreases pairs.len() - i,
                    {
                        assert(all.take(i + 1).drop_last() =~= all.take(i as int));
                        assert(all[i as int] == (pairs@[i as int].0@, pairs@[i as int].1@));
                        match &pairs[i].1 {
                            Json::Number(n) => {
                                out.insert(pairs[i].0.as_str(), n.text.as_str());
                            },
                            _ => {
                                proof {
                                    lemma_numbers_prefix(all, i + 1);
                                }
                                return None;
                            },
                        }
                        i += 1;
                    }
                    assert(all.take(i as int) =~= all);
                    Some(out)
                },
                _ => None,
            }
        },
    }
}

fn read_number(o: Option<&Json>) -> (r: Option<Option<String>>)
    ensures
        match r {
            Some(t) => opt_number_of(opt_json(o)) == Some(opt_view(t)),
            None => opt_number_of(opt_json(o)) is None,
        },
{
    match o {
        None => Some(None),
        Some(j) => match j {
            Json::Number(n) => Some(Some(n.text.clone())),
            _ => None,
        },
    }
}

/// Reads the configuration of a workspace.
pub fn read_workspace(j: &Json) -> (r: Option<WorkspaceConfig>)
    ensures
        match r {
            Some(w) => workspace_of(j@) == Some(w@),
            None => workspace_of(j@) is None,
        },
{
    if !record(j, 4) {
        return None;
    }
    let products = match field_of(j, "products", 0) {
        None => {
            return None;
        },
        Some(l) => match l.as_array() {
            None => {
                return None;
            },
            Some(items) => read_products(items),
        },
    };
    let crm = match field_of(j, "crm", 3) {
        None => Some(CrmConfig::default()),
        Some(c) => read_crm_config(c),
    };
    match (
        products,
        read_goals(field_of(j, "goals", 1)),
        read_number(field_of(j, "target_rs_per_q", 2)),
        crm,
    ) {
        (Some(products), Some(goals), Some(target_rs_per_q), Some(crm)) => Some(
            WorkspaceConfig { products, goals, target_rs_per_q, crm },
        ),
        _ => None,
    }
}

/// The products as a table of their accounts; of two of one name the later one counts.
pub open spec fn accounts_of(products: Seq<(Seq<char>, Seq<char>)>) -> Seq<(Seq<char>, Seq<char>)>
    decreases products.len(),
{
    if products.len() == 0 {
        Seq::empty()
    } else {
        stored(accounts_of(products.drop_last()), products.last().0, products.last().1)
    }
}

impl WorkspaceConfig {
    /// Reads the text of the configuration at `path`.
    pub fn load(path: &str, raw: &str) -> (r: Result<WorkspaceConfig, Error>)
        ensures
            match json_parsed(raw@) {
                Ok(j) => match workspace_of(j) {
                    Some(v) => r matches Ok(w) && w@ == v,
                    None => r matches Err(Error::Config(m)) && m@ == path@ + ": "@
                        + "this is not the configuration of a workspace"@,
                },
                Err(why) => r matches Err(Error::Config(m)) && m@ == path@ + ": "@ + why,
            },
    {
        match Json::parse(raw) {
            Ok(j) => match read_workspace(&j) {
                Some(w) => Ok(w),
                None => Err(
                    Error::Config(
                        cat3(path, ": ", "this is not the configuration of a workspace"),
                    ),
                ),
            },
            Err(why) => Err(Error::Config(cat3(path, ": ", why.as_str()))),
        }
    }

    /// The names of the products.
    pub fn product_names(&self) -> (r: Vec<&str>)
        ensures
            r@.len() == self.products@.len(),
            forall|i: int| 0 <= i < r@.len() ==> (#[trigger] r@[i])@ == self.products@[i].name@,
    {
        let mut out: Vec<&str> = Vec::new();
        let mut i: usize = 0;
        while i < self.products.len()
            invariant
                i <= self.products@.len(),
                out@.len() == i,
                forall|k: int| 0 <= k < i ==> (#[trigger] out@[k])@ == self.products@[k].name@,
            decreases self.products.len() - i,
        {
            out.push(self.products[i].name.as_str());
            i += 1;
        }
        out
    }

    /// The accounts of the products, under their names.
    pub fn ad_accounts(&self) -> (r: TextMap)
        ensures
            r@ == accounts_of(products_view(self.products@)),
            r.wf(),
    {
        let ghost all = products_view(self.products@);
        let mut out = TextMap::new();
        let mut i: usize = 0;
        assert(all.take(0) =~= Seq::empty());
        while i < self.products.len()
            invariant
                i <= self.products@.len(),
                all == products_view(self.products@),
                out@ == accounts_of(all.take(i as int)),
                out.wf(),
            decreases self.products.len() - i,
        {
            assert(all.take(i + 1).drop_last() =~= all.take(i as int));
            assert(all[i as int] == (
                self.products@[i as int].name@,
                self.products@[i as int].ad_account@,
            ));
            out.insert(
                self.products[i].name.as_str(),
                self.products[i].ad_account.as_str(),
            );
            i += 1;
        }
        assert(all.take(i as int) =~= all);
        out
    }

    /// The goal of a product as the text of its number, where it has one.
    pub fn goal_for(&self, product: &str) -> (r: Option<&String>)
        ensures
            match r {
                Some(t) => lookup(self.goals@, product@) == Some(t@),
                None => lookup(self.goals@, product@) is None,
            },
    {
        self.goals.get(product)
    }
}

// Paths

/// A path as it is seen from a directory: one that starts at the root stays as it is.
pub open spec fn below(dir: Seq<char>, name: Seq<char>) -> Seq<char> {
    if dir.len() == 0 || (name.len() > 0 && name[0] == '/') {
        name
    } else if dir.last() == '/' {
        dir + name
    } else {
        dir + "/"@ + name
    }
}

pub fn join_path(dir: &str, name: &str) -> (r: String)
    ensures
        r@ == below(dir@, name@),
{
    proof {
        reveal_strlit("/");
        if name@.len() > 0 {
            assert(name@.subrange(0, 1)[0] == name@[0]);
            assert(name@[0] == '/' ==> name@.subrange(0, 1) =~= "/"@);
        }
    }
    if dir.is_empty() || starts_with(name, "/") {
        name.to_owned()
    } else if ends_with(dir, "/") {
        assert(dir@.subrange(dir@.len() - 1, dir@.len() as int)[0] == dir@.last());
        cat2(dir, name)
    } else {
        proof {
            if dir@.last() == '/' {
                assert(dir@.subrange(dir@.len() - 1, dir@.len() as int) =~= "/"@);
            }
        }
        cat3(dir, "/", name)
    }
}

/// Where the program works: its data, the date that it is asked for, and its configuration.
#[derive(Debug)]
pub struct AppConfig {
    pub data_root: String,
    pub date: Option<String>,
    pub workspace: Option<WorkspaceConfig>,
    pub agent: bool,
}

impl AppConfig {
    pub fn has_workspace(&self) -> (r: bool)
        ensures
            r == self.workspace.is_some(),
    {
        self.workspace.is_some()
    }

    pub fn mb_dir(&self) -> (r: String)
        ensures
            r@ == below(self.data_root@, DOT_DIR@),
    {
        join_path(self.data_root.as_str(), DOT_DIR)
    }

    pub fn history_dir(&self) -> (r: String)
        ensures
            r@ == below(below(self.data_root@, DOT_DIR@), "history"@),
    {
        join_path(self.mb_dir().as_str(), "history")
    }

    pub fn snap_dir(&self) -> (r: String)
        ensures
            r@ == below(below(below(self.data_root@, DOT_DIR@), "history"@), "snap"@),
    {
        join_path(self.history_dir().as_str(), "snap")
    }

    pub fn state_dir(&self) -> (r: String)
        ensures
            r@ == below(below(self.data_root@, DOT_DIR@), "state"@),
    {
        join_path(self.mb_dir().as_str(), "state")
    }

    pub fn runs_dir(&self) -> (r: String)
        ensures
            r@ == below(below(self.data_root@, DOT_DIR@), "runs"@),
    {
        join_path(self.mb_dir().as_str(), "runs")
    }

    /// The directory of the snapshot of a date, which may be a path.
    pub fn date_dir(&self, date: &str) -> (r: String)
        ensures
            r@ == below(
                below(below(below(self.data_root@, DOT_DIR@), "history"@), "snap"@),
                date@,
            ),
    {
        join_path(self.snap_dir().as_str(), date)
    }

    /// The directory of the snapshot of a date, or of the latest one. `found` says whether that of
    /// the date is there, and `names` are those of the directories of snapshots, where there is a
    /// place for them at all.
    pub fn snap_for(
        &self,
        date: &Option<String>,
        found: bool,
        names: &Option<Vec<String>>,
    ) -> (r: Result<String, Error>)
        ensures
            ({
                let root = below(below(below(self.data_root@, DOT_DIR@), "history"@), "snap"@);
                match snap_named(
                    opt_view(*date),
                    found,
                    match *names {
                        Some(v) => Some(views(v@)),
                        None => None,
                    },
                ) {
                    Ok(name) => r matches Ok(p) && p@ == below(root, name),
                    Err(wanted) => r matches Err(Error::NoSnapshot { date: d, snap_root }) && d@
                        == wanted && snap_root@ == root,
                }
            }),
    {
        let snap_root = self.snap_dir();
        match names {
            None => Err(Error::NoSnapshot { date: "<any>".to_owned(), snap_root }),
            Some(list) => match date {
                Some(d) => if found {
                    Ok(self.date_dir(d.as_str()))
                } else {
                    Err(Error::NoSnapshot { date: d.clone(), snap_root })
                },
                None => {
                    let dates = list_dates(list);
                    assert(views(dates@).len() == dates@.len());
                    if dates.len() == 0 {
                        Err(Error::NoSnapshot { date: "<latest>".to_owned(), snap_root })
                    } else {
                        assert(views(dates@).last() == dates@.last()@);
                        Ok(join_path(snap_root.as_str(), dates[dates.len() - 1].as_str()))
                    }
                },
            },
        }
    }
}

/// The name of the snapshot that is meant: that of the date, where there is one, or the last of
/// those that are dates. Without one it is said which was wanted.
pub open spec fn snap_named(
    date: Option<Seq<char>>,
    found: bool,
    names: Option<Seq<Seq<char>>>,
) -> Result<Seq<char>, Seq<char>> {
    match names {
        None => Err("<any>"@),
        Some(list) => match date {
            Some(d) => if found {
                Ok(d)
            } else {
                Err(d)
            },
            None => {
                let dates = crate::sets::sorted_set(crate::snapshot::date_names(list));
                if dates.len() == 0 {
                    Err("<latest>"@)
                } else {
                    Ok(dates.last())
                }
            },
        },
    }
}

/// The root of the data that the text of the user's configuration names.
pub open spec fn configured_root(raw: Seq<char>) -> Option<Seq<char>> {
    match json_parsed(raw) {
        Ok(j) => text_in(member(j, "data_root"@)),
        Err(_) => None,
    }
}

pub fn root_in_config(raw: &str) -> (r: Option<String>)
    ensures
        opt_view(r) == configured_root(raw@),
{
    match Json::parse(raw) {
        Ok(j) => match j.get("data_root") {
            Some(v) => match v.as_str() {
                Some(s) => Some(s.to_owned()),
                None => None,
            },
            None => None,
        },
        Err(_) => None,
    }
}

/// The first of the roots that is given, and else a directory where the program was started.
pub open spec fn root_of(given: Seq<Option<Seq<char>>>, cwd: Seq<char>) -> Seq<char>
    decreases given.len(),
{
    if given.len() == 0 {
        below(cwd, "moneyball-data"@)
    } else {
        match given[0] {
            Some(s) => s,
            None => root_of(given.drop_first(), cwd),
        }
    }
}

pub open spec fn opts_view(v: Seq<Option<String>>) -> Seq<Option<Seq<char>>> {
    v.map_values(|o: Option<String>| opt_view(o))
}

/// Picks the root of the data: what the command line says counts before the environment, that
/// before the user's configuration, and that before what is found around.
pub fn resolve_data_root(given: &Vec<Option<String>>, cwd: &str) -> (r: String)
    ensures
        r@ == root_of(opts_view(given@), cwd@),
{
    let ghost all = opts_view(given@);
    let mut i: usize = 0;
    assert(all.skip(0) =~= all);
    while i < given.len()
        invariant
            i <= given@.len(),
            all == opts_view(given@),
            root_of(all, cwd@) == root_of(all.skip(i as int), cwd@),
        decreases given.len() - i,
    {
        assert(all.skip(i as int).drop_first() =~= all.skip(i + 1));
        assert(all[i as int] == opt_view(given@[i as int]));
        match &given[i] {
            Some(s) => {
                return s.clone();
            },
            None => {},
        }
        i += 1;
    }
    join_path(cwd, "moneyball-data")
}

} // verus!
