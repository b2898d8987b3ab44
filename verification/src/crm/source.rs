//! The description of a CRM: where it is asked, how it is paged and where its fields are.

use crate::error::Error;
use crate::json::{
    json_normal, json_printed, lemma_list_push, lemma_list_view, list_in, list_view, member,
    opt_json, pairs_view, text_in, toml_parsed, Json, JsonV,
};
use crate::provider::{lookup, stored, text_pairs, TextMap};
use crate::records::{field, field_of};
use crate::strs::{
    after_prefix, cat2, cat3, cat5, opt_view, replace, replaced, same, split, split_on,
    strip_prefix, views,
};
use vstd::prelude::*;

pub mod laws;

verus! {

/// A description to start from.
pub const TEMPLATE_TOML: &'static str = "# How this workspace asks its CRM for leads.\nname = \"my-crm\"\n\n[request]\nurl = \"https://crm.example.com/api/leads\"\nmethod = \"GET\"\n\n# A value is a stored secret (secret:<name>), an environment variable (env:<VAR>) or itself.\n[request.headers]\nAuthorization = \"secret:my-crm_token\"\n\n# {from_date} {to_date} {page} {page_size} are filled in.\n[request.query]\nfrom = \"{from_date}\"\nto = \"{to_date}\"\n\n# Left out where one request brings all records.\n[paging]\nmode = \"page\"\nparam = \"page\"\nstart = 1\nsize = 200\n\n# Dotted paths into a record; root is the path of the list of records.\n[map]\nroot = \"data\"\nad_id = \"ad_id\"\nstage = \"stage\"\ndelivery = \"created_at\"\n\n# From the stages of the CRM to Lost, NonContactable, Contactable, Visit, Revisit and Booking.\n[map.stage_map]\n\"Site Visit Done\" = \"Visit\"\n";

/// How the records of a CRM are paged.
#[derive(Debug, Clone, Copy, PartialEq, Eq, Structural)]
pub enum PagingMode {
    /// One request brings all.
    Single,
    /// The pages are numbered.
    Page,
}

#[derive(Debug)]
pub struct PagingSpec {
    pub mode: PagingMode,
    pub param: String,
    pub start: u32,
    pub size_param: String,
    pub size: u32,
}

#[verifier::ext_equal]
pub struct PagingSpecV {
    pub mode: PagingMode,
    pub param: Seq<char>,
    pub start: u32,
    pub size_param: Seq<char>,
    pub size: u32,
}

impl View for PagingSpec {
    type V = PagingSpecV;

    open spec fn view(&self) -> PagingSpecV {
        PagingSpecV {
            mode: self.mode,
            param: self.param@,
            start: self.start,
            size_param: self.size_param@,
            size: self.size,
        }
    }
}

/// No paging.
pub open spec fn no_paging() -> PagingSpecV {
    PagingSpecV {
        mode: PagingMode::Single,
        param: Seq::empty(),
        start: 0,
        size_param: Seq::empty(),
        size: 0,
    }
}

impl Default for PagingSpec {
    fn default() -> (r: Self)
        ensures
            r@ == no_paging(),
    {
        PagingSpec {
            mode: PagingMode::Single,
            param: String::new(),
            start: 0,
            size_param: String::new(),
            size: 0,
        }
    }
}

#[derive(Debug)]
pub struct RequestSpec {
    pub url: String,
    pub method: String,
    /// A value is a secret (`secret:<name>`), an environment variable (`env:<VAR>`) or itself.
    pub headers: TextMap,
    /// As `headers`, with templates.
    pub query: TextMap,
    pub body: Option<String>,
}

#[verifier::ext_equal]
pub struct RequestSpecV {
    pub url: Seq<char>,
    pub method: Seq<char>,
    pub headers: Seq<(Seq<char>, Seq<char>)>,
    pub query: Seq<(Seq<char>, Seq<char>)>,
    pub body: Option<Seq<char>>,
}

impl View for RequestSpec {
    type V = RequestSpecV;

    open spec fn view(&self) -> RequestSpecV {
        RequestSpecV {
            url: self.url@,
            method: self.method@,
            headers: self.headers@,
            query: self.query@,
            body: opt_view(self.body),
        }
    }
}

/// Where the fields of a ticket are in a record: paths with dots. An empty path stands for none.
#[derive(Debug)]
pub struct MapSpec {
    /// Where the records are in a reply; empty where the reply is the list of them.
    pub root: String,
    pub ad_id: String,
    pub stage: String,
    pub delivery: String,
    pub funnel: String,
    pub lead_id: String,
    pub phone: String,
    pub email: String,
    /// From the CRM's stages to the canonical ones; a stage that is not here stays as it is.
    pub stage_map: TextMap,
}

#[verifier::ext_equal]
pub struct MapSpecV {
    pub root: Seq<char>,
    pub ad_id: Seq<char>,
    pub stage: Seq<char>,
    pub delivery: Seq<char>,
    pub funnel: Seq<char>,
    pub lead_id: Seq<char>,
    pub phone: Seq<char>,
    pub email: Seq<char>,
    pub stage_map: Seq<(Seq<char>, Seq<char>)>,
}

impl View for MapSpec {
    type V = MapSpecV;

    open spec fn view(&self) -> MapSpecV {
        MapSpecV {
            root: self.root@,
            ad_id: self.ad_id@,
            stage: self.stage@,
            delivery: self.delivery@,
            funnel: self.funnel@,
            lead_id: self.lead_id@,
            phone: self.phone@,
            email: self.email@,
            stage_map: self.stage_map@,
        }
    }
}

/// The description of a CRM. One without a request serves imports alone.
#[derive(Debug)]
pub struct SourceSpec {
    pub name: String,
    pub request: Option<RequestSpec>,
    pub paging: PagingSpec,
    pub map: MapSpec,
}

#[verifier::ext_equal]
pub struct SourceSpecV {
    pub name: Seq<char>,
    pub request: Option<RequestSpecV>,
    pub paging: PagingSpecV,
    pub map: MapSpecV,
}

pub open spec fn opt_request(o: Option<RequestSpec>) -> Option<RequestSpecV> {
    match o {
        Some(r) => Some(r@),
        None => None,
    }
}

impl View for SourceSpec {
    type V = SourceSpecV;

    open spec fn view(&self) -> SourceSpecV {
        SourceSpecV {
            name: self.name@,
            request: opt_request(self.request),
            paging: self.paging@,
            map: self.map@,
        }
    }
}

// Reading a description

/// Whether a value can stand for a table of fields: as a table, or as a list that has the fields in
/// their order and may go on behind them.
pub open spec fn is_fields(j: JsonV) -> bool {
    j is Object || j is List
}

/// A text; `default` where it is missing; nothing where it is no text.
pub open spec fn key_text(o: Option<JsonV>, default: Option<Seq<char>>) -> Option<Seq<char>> {
    match o {
        None => default,
        Some(JsonV::Text(s)) => Some(s),
        Some(_) => None,
    }
}

/// A number within `u32`.
pub open spec fn key_u32(o: Option<JsonV>, default: u32) -> Option<u32> {
    match o {
        None => Some(default),
        Some(JsonV::Number(n)) => match n.unsigned {
            Some(u) => if u <= u32::MAX {
                Some(u as u32)
            } else {
                None
            },
            None => None,
        },
        Some(_) => None,
    }
}

/// The pairs of an object, where every value is a text.
pub open spec fn all_texts(pairs: Seq<(Seq<char>, JsonV)>) -> Option<Seq<(Seq<char>, Seq<char>)>>
    decreases pairs.len(),
{
    if pairs.len() == 0 {
        Some(Seq::empty())
    } else {
        match (all_texts(pairs.drop_last()), pairs.last().1) {
            (Some(before), JsonV::Text(s)) => Some(stored(before, pairs.last().0, s)),
            _ => None,
        }
    }
}

/// A table of texts, empty where it is missing.
pub open spec fn key_map(o: Option<JsonV>) -> Option<Seq<(Seq<char>, Seq<char>)>> {
    match o {
        None => Some(Seq::empty()),
        Some(JsonV::Object(pairs)) => all_texts(pairs),
        Some(_) => None,
    }
}

/// The mode of a name.
pub open spec fn mode_named(s: Seq<char>) -> Option<PagingMode> {
    if s == "none"@ {
        Some(PagingMode::Single)
    } else if s == "page"@ {
        Some(PagingMode::Page)
    } else {
        None
    }
}

/// Whether a value is an empty table or list.
pub open spec fn holds_no_item(j: JsonV) -> bool {
    match j {
        JsonV::Object(pairs) => pairs.len() == 0,
        JsonV::List(items) => items.len() == 0,
        _ => false,
    }
}

/// A mode: its name, or a table that holds its name alone, with nothing under it.
pub open spec fn key_mode(o: Option<JsonV>) -> Option<PagingMode> {
    match o {
        None => Some(PagingMode::Single),
        Some(JsonV::Text(s)) => mode_named(s),
        Some(JsonV::Object(pairs)) => if pairs.len() == 1 && holds_no_item(pairs[0].1) {
            mode_named(pairs[0].0)
        } else {
            None
        },
        Some(_) => None,
    }
}

/// The table `request`, or the key at which it fails.
pub open spec fn request_read(j: JsonV) -> Result<RequestSpecV, Seq<char>> {
    if !is_fields(j) {
        Err("request"@)
    } else if key_text(field(j, "url"@, 0), None) is None {
        Err("request.url"@)
    } else if key_text(field(j, "method"@, 1), Some("GET"@)) is None {
        Err("request.method"@)
    } else if key_map(field(j, "headers"@, 2)) is None {
        Err("request.headers"@)
    } else if key_map(field(j, "query"@, 3)) is None {
        Err("request.query"@)
    } else if field(j, "body"@, 4) is Some && text_in(field(j, "body"@, 4)) is None {
        Err("request.body"@)
    } else {
        Ok(
            RequestSpecV {
                url: key_text(field(j, "url"@, 0), None)->0,
                method: key_text(field(j, "method"@, 1), Some("GET"@))->0,
                headers: key_map(field(j, "headers"@, 2))->0,
                query: key_map(field(j, "query"@, 3))->0,
                body: text_in(field(j, "body"@, 4)),
            },
        )
    }
}

/// The table `paging`, or the key at which it fails.
pub open spec fn paging_read(j: JsonV) -> Result<PagingSpecV, Seq<char>> {
    if !is_fields(j) {
        Err("paging"@)
    } else if key_mode(field(j, "mode"@, 0)) is None {
        Err("paging.mode"@)
    } else if key_text(field(j, "param"@, 1), Some(Seq::empty())) is None {
        Err("paging.param"@)
    } else if key_u32(field(j, "start"@, 2), 1) is None {
        Err("paging.start"@)
    } else if key_text(field(j, "size_param"@, 3), Some(Seq::empty())) is None {
        Err("paging.size_param"@)
    } else if key_u32(field(j, "size"@, 4), 500) is None {
        Err("paging.size"@)
    } else {
        Ok(
            PagingSpecV {
                mode: key_mode(field(j, "mode"@, 0))->0,
                param: key_text(field(j, "param"@, 1), Some(Seq::empty()))->0,
                start: key_u32(field(j, "start"@, 2), 1)->0,
                size_param: key_text(field(j, "size_param"@, 3), Some(Seq::empty()))->0,
                size: key_u32(field(j, "size"@, 4), 500)->0,
            },
        )
    }
}

/// The table `map`, or the key at which it fails.
pub open spec fn map_read(j: JsonV) -> Result<MapSpecV, Seq<char>> {
    let none = Some(Seq::empty());
    if !is_fields(j) {
        Err("map"@)
    } else if key_text(field(j, "root"@, 0), none) is None {
        Err("map.root"@)
    } else if key_text(field(j, "ad_id"@, 1), None) is None {
        Err("map.ad_id"@)
    } else if key_text(field(j, "stage"@, 2), None) is None {
        Err("map.stage"@)
    } else if key_text(field(j, "delivery"@, 3), None) is None {
        Err("map.delivery"@)
    } else if key_text(field(j, "funnel"@, 4), none) is None {
        Err("map.funnel"@)
    } else if key_text(field(j, "lead_id"@, 6), none) is None {
        Err("map.lead_id"@)
    } else if key_text(field(j, "phone"@, 7), none) is None {
        Err("map.phone"@)
    } else if key_text(field(j, "email"@, 8), none) is None {
        Err("map.email"@)
    } else if key_map(field(j, "stage_map"@, 5)) is None {
        Err("map.stage_map"@)
    } else {
        Ok(
            MapSpecV {
                root: key_text(field(j, "root"@, 0), none)->0,
                ad_id: key_text(field(j, "ad_id"@, 1), None)->0,
                stage: key_text(field(j, "stage"@, 2), None)->0,
                delivery: key_text(field(j, "delivery"@, 3), None)->0,
                funnel: key_text(field(j, "funnel"@, 4), none)->0,
                lead_id: key_text(field(j, "lead_id"@, 6), none)->0,
                phone: key_text(field(j, "phone"@, 7), none)->0,
                email: key_text(field(j, "email"@, 8), none)->0,
                stage_map: key_map(field(j, "stage_map"@, 5))->0,
            },
        )
    }
}

/// The description that a document holds, or the key at which it fails.
pub open spec fn spec_read(j: JsonV) -> Result<SourceSpecV, Seq<char>> {
    if key_text(member(j, "name"@), None) is None {
        Err("name"@)
    } else if member(j, "request"@) is Some && request_read(member(j, "request"@)->0) is Err {
        Err(request_read(member(j, "request"@)->0)->Err_0)
    } else if member(j, "paging"@) is Some && paging_read(member(j, "paging"@)->0) is Err {
        Err(paging_read(member(j, "paging"@)->0)->Err_0)
    } else if member(j, "map"@) is None {
        Err("map"@)
    } else if map_read(member(j, "map"@)->0) is Err {
        Err(map_read(member(j, "map"@)->0)->Err_0)
    } else {
        Ok(
            SourceSpecV {
                name: key_text(member(j, "name"@), None)->0,
                request: match member(j, "request"@) {
                    Some(r) => Some(request_read(r)->Ok_0),
                    None => None,
                },
                paging: match member(j, "paging"@) {
                    Some(p) => paging_read(p)->Ok_0,
                    None => no_paging(),
                },
                map: map_read(member(j, "map"@)->0)->Ok_0,
            },
        )
    }
}

fn has_fields(j: &Json) -> (r: bool)
    ensures
        r == is_fields(j@),
{
    match j {
        Json::Object(_) => true,
        Json::List(_) => true,
        _ => false,
    }
}

fn need_text(o: Option<&Json>) -> (r: Option<String>)
    ensures
        opt_view(r) == key_text(opt_json(o), None),
{
    match o {
        None => None,
        Some(v) => match v {
            Json::Text(s) => Some(s.clone()),
            _ => None,
        },
    }
}

fn text_or(o: Option<&Json>, default: &str) -> (r: Option<String>)
    ensures
        opt_view(r) == key_text(opt_json(o), Some(default@)),
{
    match o {
        None => Some(default.to_owned()),
        Some(v) => match v {
            Json::Text(s) => Some(s.clone()),
            _ => None,
        },
    }
}

fn text_or_none(o: Option<&Json>) -> (r: Option<String>)
    ensures
        opt_view(r) == key_text(opt_json(o), Some(Seq::empty())),
{
    match o {
        None => Some(String::new()),
        Some(v) => match v {
            Json::Text(s) => Some(s.clone()),
            _ => None,
        },
    }
}

fn u32_or(o: Option<&Json>, default: u32) -> (r: Option<u32>)
    ensures
        r == key_u32(opt_json(o), default),
{
    match o {
        None => Some(default),
        Some(v) => match v.as_u64() {
            Some(u) => if u <= u32::MAX as u64 {
                Some(u as u32)
            } else {
                None
            },
            None => None,
        },
    }
}

fn find_mode(s: &str) -> (r: Option<PagingMode>)
    ensures
        r == mode_named(s@),
{
    if same(s, "none") {
        Some(PagingMode::Single)
    } else if same(s, "page") {
        Some(PagingMode::Page)
    } else {
        None
    }
}

fn is_bare(j: &Json) -> (r: bool)
    ensures
        r == holds_no_item(j@),
{
    proof {
        lemma_list_view(*j);
    }
    match j {
        Json::Object(pairs) => {
            assert(pairs_view(pairs@).len() == pairs@.len());
            pairs.len() == 0
        },
        Json::List(items) => {
            assert(list_view(items@).len() == items@.len());
            items.len() == 0
        },
        _ => false,
    }
}

fn mode_or_single(o: Option<&Json>) -> (r: Option<PagingMode>)
    ensures
        r == key_mode(opt_json(o)),
{
    match o {
        None => Some(PagingMode::Single),
        Some(v) => {
            proof {
                lemma_list_view(*v);
            }
            match v {
                Json::Text(s) => find_mode(s.as_str()),
                Json::Object(pairs) => {
                    assert(pairs_view(pairs@).len() == pairs@.len());
                    if pairs.len() == 1 {
                        assert(pairs_view(pairs@)[0] == (pairs@[0].0@, pairs@[0].1@));
                        if is_bare(&pairs[0].1) {
                            return find_mode(pairs[0].0.as_str());
                        }
                    }
                    None
                },
                _ => None,
            }
        },
    }
}

proof fn lemma_all_texts_prefix(pairs: Seq<(Seq<char>, JsonV)>, n: int)
    requires
        0 <= n <= pairs.len(),
        all_texts(pairs.take(n)) is None,
    ensures
        all_texts(pairs) is None,
    decreases pairs.len() - n,
{
    if n < pairs.len() {
        assert(pairs.take(n + 1).drop_last() =~= pairs.take(n));
        lemma_all_texts_prefix(pairs, n + 1);
    } else {
        assert(pairs.take(n) =~= pairs);
    }
}

pub(crate) fn map_or_none(o: Option<&Json>) -> (r: Option<TextMap>)
    ensures
        match r {
            Some(m) => key_map(opt_json(o)) == Some(m@) && m.wf(),
            None => key_map(opt_json(o)) is None,
        },
{
    let table = match o {
        None => {
            return Some(TextMap::new());
        },
        Some(t) => t,
    };
    proof {
        lemma_list_view(*table);
    }
    match table {
        Json::Object(pairs) => {
            let ghost all = pairs_view(pairs@);
            let mut out = TextMap::new();
            let mut i: usize = 0;
            assert(all.take(0) =~= Seq::empty());
            while i < pairs.len()
                invariant
                    i <= pairs@.len(),
                    all == pairs_view(pairs@),
                    opt_json(o) == Some(JsonV::Object(all)),
                    all_texts(all.take(i as int)) == Some(out@),
                    out.wf(),
                decreases pairs.len() - i,
            {
                assert(all.take(i + 1).drop_last() =~= all.take(i as int));
                assert(all[i as int] == (pairs@[i as int].0@, pairs@[i as int].1@));
                match pairs[i].1.as_str() {
                    None => {
                        proof {
                            lemma_all_texts_prefix(all, i + 1);
                        }
                        return None;
                    },
                    Some(s) => {
                        out.insert(pairs[i].0.as_str(), s);
                    },
                }
                i += 1;
            }
            assert(all.take(i as int) =~= all);
            Some(out)
        },
        _ => None,
    }
}

fn read_request(j: &Json) -> (r: Result<RequestSpec, &'static str>)
    ensures
        match r {
            Ok(s) => request_read(j@) == Ok::<RequestSpecV, Seq<char>>(s@),
            Err(k) => request_read(j@) == Err::<RequestSpecV, Seq<char>>(k@),
        },
{
    if !has_fields(j) {
        return Err("request");
    }
    let url = match need_text(field_of(j, "url", 0)) {
        Some(s) => s,
        None => {
            return Err("request.url");
        },
    };
    let method = match text_or(field_of(j, "method", 1), "GET") {
        Some(s) => s,
        None => {
            return Err("request.method");
        },
    };
    let headers = match map_or_none(field_of(j, "headers", 2)) {
        Some(m) => m,
        None => {
            return Err("request.headers");
        },
    };
    let query = match map_or_none(field_of(j, "query", 3)) {
        Some(m) => m,
        None => {
            return Err("request.query");
        },
    };
    let body = match field_of(j, "body", 4) {
        None => None,
        Some(v) => match v.as_str() {
            Some(s) => Some(s.to_owned()),
            None => {
                return Err("request.body");
            },
        },
    };
    Ok(RequestSpec { url, method, headers, query, body })
}

fn read_paging(j: &Json) -> (r: Result<PagingSpec, &'static str>)
    ensures
        match r {
            Ok(s) => paging_read(j@) == Ok::<PagingSpecV, Seq<char>>(s@),
            Err(k) => paging_read(j@) == Err::<PagingSpecV, Seq<char>>(k@),
        },
{
    if !has_fields(j) {
        return Err("paging");
    }
    let mode = match mode_or_single(field_of(j, "mode", 0)) {
        Some(m) => m,
        None => {
            return Err("paging.mode");
        },
    };
    let param = match text_or_none(field_of(j, "param", 1)) {
        Some(s) => s,
        None => {
            return Err("paging.param");
        },
    };
    let start = match u32_or(field_of(j, "start", 2), 1) {
        Some(n) => n,
        None => {
            return Err("paging.start");
        },
    };
    let size_param = match text_or_none(field_of(j, "size_param", 3)) {
        Some(s) => s,
        None => {
            return Err("paging.size_param");
        },
    };
    let size = match u32_or(field_of(j, "size", 4), 500) {
        Some(n) => n,
        None => {
            return Err("paging.size");
        },
    };
    Ok(PagingSpec { mode, param, start, size_param, size })
}

fn read_map(j: &Json) -> (r: Result<MapSpec, &'static str>)
    ensures
        match r {
            Ok(s) => map_read(j@) == Ok::<MapSpecV, Seq<char>>(s@),
            Err(k) => map_read(j@) == Err::<MapSpecV, Seq<char>>(k@),
        },
{
    if !has_fields(j) {
        return Err("map");
    }
    let root = match text_or_none(field_of(j, "root", 0)) {
        Some(s) => s,
        None => {
            return Err("map.root");
        },
    };
    let ad_id = match need_text(field_of(j, "ad_id", 1)) {
        Some(s) => s,
        None => {
            return Err("map.ad_id");
        },
    };
    let stage = match need_text(field_of(j, "stage", 2)) {
        Some(s) => s,
        None => {
            return Err("map.stage");
        },
    };
    let delivery = match need_text(field_of(j, "delivery", 3)) {
        Some(s) => s,
        None => {
            return Err("map.delivery");
        },
    };
    let funnel = match text_or_none(field_of(j, "funnel", 4)) {
        Some(s) => s,
        None => {
            return Err("map.funnel");
        },
    };
    let lead_id = match text_or_none(field_of(j, "lead_id", 6)) {
        Some(s) => s,
        None => {
            return Err("map.lead_id");
        },
    };
    let phone = match text_or_none(field_of(j, "phone", 7)) {
        Some(s) => s,
        None => {
            return Err("map.phone");
        },
    };
    let email = match text_or_none(field_of(j, "email", 8)) {
        Some(s) => s,
        None => {
            return Err("map.email");
        },
    };
    let stage_map = match map_or_none(field_of(j, "stage_map", 5)) {
        Some(m) => m,
        None => {
            return Err("map.stage_map");
        },
    };
    Ok(MapSpec { root, ad_id, stage, delivery, funnel, lead_id, phone, email, stage_map })
}

/// Reads a description out of a document, or says at which key it fails.
pub fn read_spec(j: &Json) -> (r: Result<SourceSpec, &'static str>)
    ensures
        match r {
            Ok(s) => spec_read(j@) == Ok::<SourceSpecV, Seq<char>>(s@),
            Err(k) => spec_read(j@) == Err::<SourceSpecV, Seq<char>>(k@),
        },
{
    let name = match need_text(j.get("name")) {
        Some(s) => s,
        None => {
            return Err("name");
        },
    };
    let request = match j.get("request") {
        None => None,
        Some(t) => match read_request(t) {
            Ok(r) => Some(r),
            Err(k) => {
                return Err(k);
            },
        },
    };
    let paging = match j.get("paging") {
        None => PagingSpec {
            mode: PagingMode::Single,
            param: String::new(),
            start: 0,
            size_param: String::new(),
            size: 0,
        },
        Some(t) => match read_paging(t) {
            Ok(p) => p,
            Err(k) => {
                return Err(k);
            },
        },
    };
    let map = match j.get("map") {
        None => {
            return Err("map");
        },
        Some(t) => match read_map(t) {
            Ok(m) => m,
            Err(k) => {
                return Err(k);
            },
        },
    };
    Ok(SourceSpec { name, request, paging, map })
}

/// What an error on a key says.
pub open spec fn bad_key_text(key: Seq<char>) -> Seq<char> {
    "crm.toml: missing or invalid `"@ + key + "`"@
}

/// Parses a description.
pub fn parse(spec: &str) -> (r: Result<SourceSpec, Error>)
    ensures
        match toml_parsed(spec@) {
            Err(m) => r matches Err(Error::Config(t)) && t@ == "crm.toml: "@ + m,
            Ok(j) => match spec_read(j) {
                Ok(s) => r matches Ok(o) && o@ == s,
                Err(k) => r matches Err(Error::Config(t)) && t@ == bad_key_text(k),
            },
        },
{
    match Json::parse_toml(spec) {
        Err(m) => Err(Error::Config(cat2("crm.toml: ", m.as_str()))),
        Ok(j) => match read_spec(&j) {
            Ok(s) => Ok(s),
            Err(k) => Err(Error::Config(cat3("crm.toml: missing or invalid `", k, "`"))),
        },
    }
}

// Templates and references

/// A template with each `{key}` replaced, one key after the other.
pub open spec fn expanded(template: Seq<char>, vars: Seq<(Seq<char>, Seq<char>)>) -> Seq<char>
    decreases vars.len(),
{
    if vars.len() == 0 {
        template
    } else {
        replaced(
            expanded(template, vars.drop_last()),
            "{"@ + vars.last().0 + "}"@,
            vars.last().1,
        )
    }
}

/// Fills a template; a name that is not known stays as it is.
pub fn expand(template: &str, vars: &TextMap) -> (r: String)
    ensures
        r@ == expanded(template@, vars@),
{
    let ghost all = vars@;
    let mut out = template.to_owned();
    let mut i: usize = 0;
    assert(all.take(0) =~= Seq::empty());
    while i < vars.pairs.len()
        invariant
            i <= vars.pairs@.len(),
            all == text_pairs(vars.pairs@),
            out@ == expanded(template@, all.take(i as int)),
        decreases vars.pairs.len() - i,
    {
        assert(all.take(i + 1).drop_last() =~= all.take(i as int));
        assert(all[i as int] == (vars.pairs@[i as int].0@, vars.pairs@[i as int].1@));
        let key = cat3("{", vars.pairs[i].0.as_str(), "}");
        proof {
            reveal_strlit("{");
        }
        out = replace(out.as_str(), key.as_str(), vars.pairs[i].1.as_str());
        i += 1;
    }
    assert(all.take(i as int) =~= all);
    out
}

proof fn lemma_replaced_absent(s: Seq<char>, p: Seq<char>, q: Seq<char>, from: int)
    requires
        0 <= from <= s.len(),
        p.len() > 0,
        forall|i: int| from <= i < s.len() ==> !crate::strs::occurs_at(s, p, i),
    ensures
        crate::strs::replaced_from(s, p, q, from) == s.skip(from),
    decreases s.len() - from,
{
    if from < s.len() {
        lemma_replaced_absent(s, p, q, from + 1);
        assert(seq![s[from]] + s.skip(from + 1) =~= s.skip(from));
    } else {
        assert(s.skip(from) =~= Seq::empty());
    }
}

/// A template without any of the names stays as it is.
pub proof fn law_expand_keeps_unknown_names(
    template: Seq<char>,
    vars: Seq<(Seq<char>, Seq<char>)>,
)
    requires
        forall|k: int|
            0 <= k < vars.len() ==> !crate::strs::has_text(
                template,
                "{"@ + (#[trigger] vars[k]).0 + "}"@,
            ),
    ensures
        expanded(template, vars) == template,
    decreases vars.len(),
{
    if vars.len() > 0 {
        let rest = vars.drop_last();
        assert(forall|k: int| 0 <= k < rest.len() ==> #[trigger] rest[k] == vars[k]);
        law_expand_keeps_unknown_names(template, rest);
        let p = "{"@ + vars.last().0 + "}"@;
        assert(!crate::strs::has_text(template, p)) by {
            assert(vars[vars.len() - 1] == vars.last());
        }
        reveal_strlit("{");
        assert(forall|i: int| !crate::strs::occurs_at(template, p, i));
        lemma_replaced_absent(template, p, vars.last().1, 0);
        assert(template.skip(0) =~= template);
    }
}

/// What a value of a description refers to.
pub open spec fn resolved(
    value: Seq<char>,
    secrets: Seq<(Seq<char>, Seq<char>)>,
    env: Seq<(Seq<char>, Seq<char>)>,
) -> Result<Seq<char>, Seq<char>> {
    match after_prefix(value, "secret:"@) {
        Some(name) => match lookup(secrets, name) {
            Some(v) => Ok(v),
            None => Err(
                "no CRM secret \""@ + name + "\" - store it with: moneyball crm secret "@ + name,
            ),
        },
        None => match after_prefix(value, "env:"@) {
            Some(var) => match lookup(env, var) {
                Some(v) => Ok(v),
                None => Err("env var "@ + var + " is not set"@),
            },
            None => Ok(value),
        },
    }
}

/// Resolves a value: a secret, an environment variable, or itself.
pub fn resolve_ref(value: &str, secrets: &TextMap, env: &TextMap) -> (r: Result<String, Error>)
    ensures
        match resolved(value@, secrets@, env@) {
            Ok(v) => r matches Ok(s) && s@ == v,
            Err(m) => r matches Err(Error::Secrets(t)) && t@ == m,
        },
{
    match strip_prefix(value, "secret:") {
        Some(name) => {
            return match secrets.get(name.as_str()) {
                Some(v) => Ok(v.clone()),
                None => Err(
                    Error::Secrets(
                        cat2(
                            cat3(
                                "no CRM secret \"",
                                name.as_str(),
                                "\" - store it with: moneyball crm secret ",
                            ).as_str(),
                            name.as_str(),
                        ),
                    ),
                ),
            };
        },
        None => {},
    }
    match strip_prefix(value, "env:") {
        Some(var) => match env.get(var.as_str()) {
            Some(v) => Ok(v.clone()),
            None => Err(Error::Secrets(cat3("env var ", var.as_str(), " is not set"))),
        },
        None => Ok(value.to_owned()),
    }
}

// Records

/// Where the members lead, one after the other.
pub open spec fn descend(j: JsonV, keys: Seq<Seq<char>>) -> Option<JsonV>
    decreases keys.len(),
{
    if keys.len() == 0 {
        Some(j)
    } else {
        match member(j, keys[0]) {
            Some(next) => descend(next, keys.drop_first()),
            None => None,
        }
    }
}

/// Where a path with dots leads.
pub open spec fn path_in(j: JsonV, path: Seq<char>) -> Option<JsonV> {
    descend(j, split_on(path, '.'))
}

pub fn get_path<'a>(v: &'a Json, path: &str) -> (r: Option<&'a Json>)
    ensures
        opt_json(r) == path_in(v@, path@),
{
    let keys = split(path, '.');
    let ghost all = split_on(path@, '.');
    let mut here: &Json = v;
    let mut i: usize = 0;
    assert(all.skip(0) =~= all);
    while i < keys.len()
        invariant
            i <= keys@.len(),
            views(keys@) == all,
            all == split_on(path@, '.'),
            descend(v@, all) == descend(here@, all.skip(i as int)),
        decreases keys.len() - i,
    {
        assert(all.skip(i as int).drop_first() =~= all.skip(i + 1));
        assert(all[i as int] == keys@[i as int]@);
        match here.get(keys[i].as_str()) {
            Some(next) => {
                here = next;
            },
            None => {
                return None;
            },
        }
        i += 1;
    }
    Some(here)
}

/// A value as a text: a text is itself, anything else is printed.
pub open spec fn scalar_text(j: JsonV) -> Seq<char> {
    match j {
        JsonV::Text(s) => s,
        _ => json_printed(json_normal(j)),
    }
}

pub fn scalar_string(v: &Json) -> (r: String)
    ensures
        r@ == scalar_text(v@),
{
    match v {
        Json::Text(s) => s.clone(),
        other => other.to_text(),
    }
}

pub open spec fn kind_text(j: JsonV) -> Seq<char> {
    match j {
        JsonV::Null => "null"@,
        JsonV::Bool(_) => "bool"@,
        JsonV::Number(_) => "number"@,
        JsonV::Text(_) => "string"@,
        JsonV::List(_) => "array"@,
        JsonV::Object(_) => "object"@,
    }
}

pub fn json_kind(v: &Json) -> (r: &'static str)
    ensures
        r@ == kind_text(v@),
{
    match v {
        Json::Null => "null",
        Json::Bool(_) => "bool",
        Json::Number(_) => "number",
        Json::Text(_) => "string",
        Json::List(_) => "array",
        Json::Object(_) => "object",
    }
}

/// The records of a reply, or what is wrong with it.
pub open spec fn records_of(j: JsonV, root: Seq<char>) -> Result<Seq<JsonV>, Seq<char>> {
    let node = if root.len() == 0 {
        Some(j)
    } else {
        path_in(j, root)
    };
    match node {
        None => Err("response has nothing at map.root \""@ + root + "\""@),
        Some(n) => match list_in(Some(n)) {
            Some(items) => Ok(items),
            None => Err(
                "map.root \""@ + root + "\" is not a JSON array (got "@ + kind_text(n) + ")"@,
            ),
        },
    }
}

/// The list of records in a reply.
pub fn records<'a>(resp: &'a Json, root: &str) -> (r: Result<&'a Vec<Json>, Error>)
    ensures
        match records_of(resp@, root@) {
            Ok(items) => r matches Ok(v) && list_view(v@) == items,
            Err(m) => r matches Err(Error::Config(t)) && t@ == m,
        },
{
    let node = if root.is_empty() {
        resp
    } else {
        match get_path(resp, root) {
            Some(n) => n,
            None => {
                return Err(
                    Error::Config(cat3("response has nothing at map.root \"", root, "\"")),
                );
            },
        }
    };
    match node.as_array() {
        Some(v) => Ok(v),
        None => Err(
            Error::Config(
                cat5("map.root \"", root, "\" is not a JSON array (got ", json_kind(node), ")"),
            ),
        ),
    }
}

// Tickets

/// The stage of a record, in canonical terms where the map has it.
pub open spec fn mapped_stage(
    s: Seq<char>,
    stage_map: Seq<(Seq<char>, Seq<char>)>,
) -> Seq<char> {
    match lookup(stage_map, s) {
        Some(t) => t,
        None => s,
    }
}

/// An optional member with a text.
pub open spec fn text_pair(key: Seq<char>, value: Option<JsonV>) -> Seq<(Seq<char>, JsonV)> {
    match value {
        Some(v) => seq![(key, JsonV::Text(scalar_text(v)))],
        None => Seq::empty(),
    }
}

/// The members of a ticket behind its id: stage, delivery and funnel, as far as the record has
/// them.
pub open spec fn ticket_tail(rec: JsonV, map: MapSpecV) -> Seq<(Seq<char>, JsonV)> {
    let stage = match path_in(rec, map.stage) {
        Some(v) => seq![
            ("stage"@, JsonV::Text(mapped_stage(scalar_text(v), map.stage_map))),
        ],
        None => Seq::empty(),
    };
    let delivery = match path_in(rec, map.delivery) {
        Some(v) => seq![("delivery"@, v)],
        None => Seq::empty(),
    };
    let funnel = if map.funnel.len() > 0 {
        text_pair("funnel"@, path_in(rec, map.funnel))
    } else {
        Seq::empty()
    };
    stage + delivery + funnel
}

/// The ticket of a record. A field that is missing in the record is missing in the ticket.
pub open spec fn ticket_of(rec: JsonV, map: MapSpecV) -> JsonV {
    JsonV::Object(text_pair("ad_id"@, path_in(rec, map.ad_id)) + ticket_tail(rec, map))
}

pub(crate) fn push_pair(v: &mut Vec<(String, Json)>, key: &str, value: Json)
    ensures
        pairs_view(final(v)@) == pairs_view(old(v)@).push((key@, value@)),
{
    let p = (key.to_owned(), value);
    assert(pairs_view(v@.push(p)) =~= pairs_view(v@).push((key@, value@)));
    v.push(p);
}

pub(crate) fn push_tail(v: &mut Vec<(String, Json)>, rec: &Json, map: &MapSpec)
    ensures
        pairs_view(final(v)@) == pairs_view(old(v)@) + ticket_tail(rec@, map@),
{
    let ghost start = pairs_view(v@);
    match get_path(rec, map.stage.as_str()) {
        Some(s) => {
            let raw = scalar_string(s);
            let stage = match map.stage_map.get(raw.as_str()) {
                Some(t) => t.clone(),
                None => raw,
            };
            push_pair(v, "stage", Json::Text(stage));
        },
        None => {},
    }
    match get_path(rec, map.delivery.as_str()) {
        Some(d) => {
            push_pair(v, "delivery", d.copy());
        },
        None => {},
    }
    if !map.funnel.as_str().is_empty() {
        match get_path(rec, map.funnel.as_str()) {
            Some(f) => {
                push_pair(v, "funnel", Json::Text(scalar_string(f)));
            },
            None => {},
        }
    }
    assert(pairs_view(v@) =~= start + ticket_tail(rec@, map@));
}

/// The tickets of all records.
pub fn transform(records: &Vec<Json>, map: &MapSpec) -> (r: Vec<Json>)
    ensures
        list_view(r@) == list_view(records@).map_values(|rec: JsonV| ticket_of(rec, map@)),
{
    let ghost want = list_view(records@).map_values(|rec: JsonV| ticket_of(rec, map@));
    let mut out: Vec<Json> = Vec::new();
    let mut i: usize = 0;
    assert(list_view(out@) =~= want.take(0));
    while i < records.len()
        invariant
            i <= records@.len(),
            want == list_view(records@).map_values(|rec: JsonV| ticket_of(rec, map@)),
            list_view(out@) == want.take(i as int),
        decreases records.len() - i,
    {
        let rec = &records[i];
        let mut t: Vec<(String, Json)> = Vec::new();
        match get_path(rec, map.ad_id.as_str()) {
            Some(a) => {
                push_pair(&mut t, "ad_id", Json::Text(scalar_string(a)));
            },
            None => {},
        }
        assert(pairs_view(t@) =~= text_pair("ad_id"@, path_in(rec@, map@.ad_id)));
        push_tail(&mut t, rec, map);
        let ticket = crate::json::object(t);
        proof {
            assert(list_view(records@)[i as int] == rec@);
            lemma_list_push(out@, ticket);
            assert(want.take(i + 1) =~= want.take(i as int).push(ticket@));
        }
        out.push(ticket);
        i += 1;
    }
    assert(want.take(i as int) =~= want);
    out
}

} // verus!
