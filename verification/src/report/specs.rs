//! Whom the ad sets of a targeting aim at, and of what kind a targeting is.

use crate::crm::is_object;
use crate::json::{
    list_in, list_view, member, nat_in, opt_json, opt_str, pointer, text_in, Json, JsonV,
};
use crate::provider::{lookup, TextMap};
use crate::schema::{TargetingSpecs, TargetingSpecsV};
use crate::strs::{
    cat2, cat3, cat4, contains, dec, decimal, decimal_len, has_text, join, joined, lowercase,
    lowercase_of, opt_view, push_text, views,
};
use vstd::prelude::*;

pub mod laws;

verus! {

// Kinds

/// The kind of a targeting by its name in lower case.
pub open spec fn archetype_of(n: Seq<char>) -> Seq<char> {
    if has_text(n, "pincode"@) || has_text(n, "pin code"@) {
        "Pincode"@
    } else if has_text(n, "lookalike"@) || has_text(n, "lal"@) {
        "Lookalike"@
    } else if has_text(n, "income"@) || has_text(n, "broad"@) || has_text(n, "advantage"@) {
        "Broad-Income"@
    } else if has_text(n, "detailed"@) || has_text(n, "interest"@) || has_text(n, "nri"@) {
        "Detailed"@
    } else {
        "Other"@
    }
}

/// Finds the kind of a targeting whose name is given in lower case.
pub fn archetype_in(n: &str) -> (r: &'static str)
    ensures
        r@ == archetype_of(n@),
{
    if contains(n, "pincode") || contains(n, "pin code") {
        "Pincode"
    } else if contains(n, "lookalike") || contains(n, "lal") {
        "Lookalike"
    } else if contains(n, "income") || contains(n, "broad") || contains(n, "advantage") {
        "Broad-Income"
    } else if contains(n, "detailed") || contains(n, "interest") || contains(n, "nri") {
        "Detailed"
    } else {
        "Other"
    }
}

/// Finds the kind of a targeting.
pub fn archetype(name: &str) -> (r: String)
    ensures
        r@ == archetype_of(lowercase_of(name@)),
{
    archetype_in(lowercase(name).as_str()).to_owned()
}

// Places

/// A number as it is shown; one of which nothing is said is shown as it is written.
pub open spec fn number_shown(shown: Seq<(Seq<char>, Seq<char>)>, n: Seq<char>) -> Seq<char> {
    match lookup(shown, n) {
        Some(t) => t,
        None => n,
    }
}

/// The name of a place, with the radius around it.
pub open spec fn place_label(e: JsonV, shown: Seq<(Seq<char>, Seq<char>)>) -> Option<Seq<char>> {
    match text_in(member(e, "name"@)) {
        Some(n) => match member(e, "radius"@) {
            Some(JsonV::Number(x)) => Some(n + (" "@ + number_shown(shown, x.text) + "km"@)),
            _ => Some(n),
        },
        None => None,
    }
}

pub open spec fn place_labels(
    items: Seq<JsonV>,
    shown: Seq<(Seq<char>, Seq<char>)>,
) -> Seq<Seq<char>>
    decreases items.len(),
{
    if items.len() == 0 {
        Seq::empty()
    } else {
        let before = place_labels(items.drop_last(), shown);
        match place_label(items.last(), shown) {
            Some(t) => before.push(t),
            None => before,
        }
    }
}

pub open spec fn places_under(
    g: JsonV,
    key: Seq<char>,
    shown: Seq<(Seq<char>, Seq<char>)>,
) -> Seq<Seq<char>> {
    match list_in(member(g, key)) {
        Some(items) => place_labels(items, shown),
        None => Seq::empty(),
    }
}

/// The texts of a list.
pub open spec fn texts_among(items: Seq<JsonV>) -> Seq<Seq<char>>
    decreases items.len(),
{
    if items.len() == 0 {
        Seq::empty()
    } else {
        let before = texts_among(items.drop_last());
        match text_in(Some(items.last())) {
            Some(t) => before.push(t),
            None => before,
        }
    }
}

pub open spec fn countries_of(g: JsonV) -> Seq<Seq<char>> {
    match list_in(member(g, "countries"@)) {
        Some(items) => texts_among(items),
        None => Seq::empty(),
    }
}

/// Up to two names, and how many more there are.
pub open spec fn geo_text(names: Seq<Seq<char>>) -> Seq<char> {
    if names.len() == 0 {
        "-"@
    } else if names.len() <= 2 {
        joined(names, ", "@)
    } else {
        joined(names.take(2), ", "@) + " +"@ + dec((names.len() - 2) as nat) + " more"@
    }
}

/// Where an audience is: its cities, regions and places, or else its countries.
pub open spec fn geo_of(g: JsonV, shown: Seq<(Seq<char>, Seq<char>)>) -> Seq<char> {
    let names = places_under(g, "cities"@, shown) + places_under(g, "regions"@, shown)
        + places_under(g, "custom_locations"@, shown);
    geo_text(
        if names.len() == 0 {
            countries_of(g)
        } else {
            names
        },
    )
}

fn show_number(shown: &TextMap, n: &str) -> (r: String)
    ensures
        r@ == number_shown(shown@, n@),
{
    match shown.get(n) {
        Some(t) => t.clone(),
        None => n.to_owned(),
    }
}

fn find_label(e: &Json, shown: &TextMap) -> (r: Option<String>)
    ensures
        opt_view(r) == place_label(e@, shown@),
{
    match opt_str(e.get("name")) {
        Some(n) => match e.get("radius") {
            Some(j) => match j {
                Json::Number(x) => {
                    let around = cat3(" ", show_number(shown, x.text.as_str()).as_str(), "km");
                    Some(cat2(n, around.as_str()))
                },
                _ => Some(n.to_owned()),
            },
            None => Some(n.to_owned()),
        },
        None => None,
    }
}

fn push_places(out: &mut Vec<String>, g: &Json, key: &str, shown: &TextMap)
    ensures
        views(final(out)@) == views(old(out)@) + places_under(g@, key@, shown@),
{
    let ghost given = views(out@);
    match g.get(key) {
        Some(j) => match j.as_array() {
            Some(items) => {
                let ghost all = list_view(items@);
                let mut i: usize = 0;
                assert(all.take(0) =~= Seq::empty());
                assert(given + place_labels(all.take(0), shown@) =~= given);
                while i < items.len()
                    invariant
                        i <= items@.len(),
                        all == list_view(items@),
                        views(out@) == given + place_labels(all.take(i as int), shown@),
                    decreases items.len() - i,
                {
                    assert(all.take(i + 1).drop_last() =~= all.take(i as int));
                    assert(all[i as int] == items@[i as int]@);
                    let ghost before = place_labels(all.take(i as int), shown@);
                    match find_label(&items[i], shown) {
                        Some(t) => {
                            assert((given + before).push(t@) =~= given + before.push(t@));
                            push_text(out, t);
                        },
                        None => {},
                    }
                    i += 1;
                }
                assert(all.take(i as int) =~= all);
            },
            None => {
                assert(views(out@) =~= given + Seq::empty());
            },
        },
        None => {
            assert(views(out@) =~= given + Seq::empty());
        },
    }
}

fn list_countries(g: &Json) -> (r: Vec<String>)
    ensures
        views(r@) == countries_of(g@),
{
    let mut out: Vec<String> = Vec::new();
    assert(views(out@) =~= Seq::empty());
    match g.get("countries") {
        Some(j) => match j.as_array() {
            Some(items) => {
                let ghost all = list_view(items@);
                let mut i: usize = 0;
                assert(all.take(0) =~= Seq::empty());
                while i < items.len()
                    invariant
                        i <= items@.len(),
                        all == list_view(items@),
                        views(out@) == texts_among(all.take(i as int)),
                    decreases items.len() - i,
                {
                    assert(all.take(i + 1).drop_last() =~= all.take(i as int));
                    assert(all[i as int] == items@[i as int]@);
                    match items[i].as_str() {
                        Some(t) => {
                            push_text(&mut out, t.to_owned());
                        },
                        None => {},
                    }
                    i += 1;
                }
                assert(all.take(i as int) =~= all);
            },
            None => {},
        },
        None => {},
    }
    out
}

fn show_geo(names: &Vec<String>) -> (r: String)
    ensures
        r@ == geo_text(views(names@)),
{
    let n: usize = names.len();
    assert(views(names@).len() == n);
    if n == 0 {
        "-".to_owned()
    } else if n <= 2 {
        join(names, ", ")
    } else {
        let mut two: Vec<String> = Vec::new();
        two.push(names[0].clone());
        two.push(names[1].clone());
        assert(views(two@) =~= views(names@).take(2));
        cat4(join(&two, ", ").as_str(), " +", decimal_len(n - 2).as_str(), " more")
    }
}

fn find_geo(g: &Json, shown: &TextMap) -> (r: String)
    ensures
        r@ == geo_of(g@, shown@),
{
    let mut names: Vec<String> = Vec::new();
    assert(views(names@) =~= Seq::empty());
    push_places(&mut names, g, "cities", shown);
    push_places(&mut names, g, "regions", shown);
    push_places(&mut names, g, "custom_locations", shown);
    assert(views(names@) =~= places_under(g@, "cities"@, shown@) + places_under(
        g@,
        "regions"@,
        shown@,
    ) + places_under(g@, "custom_locations"@, shown@));
    if names.len() == 0 {
        show_geo(&list_countries(g))
    } else {
        show_geo(&names)
    }
}

// Ad sets

/// The first of the ad sets that is described.
pub open spec fn described(adsets: JsonV, ids: Seq<Seq<char>>) -> Option<JsonV>
    decreases ids.len(),
{
    if ids.len() == 0 {
        None
    } else {
        match member(adsets, ids[0]) {
            Some(JsonV::Object(pairs)) => Some(JsonV::Object(pairs)),
            _ => described(adsets, ids.drop_first()),
        }
    }
}

fn find_described<'a>(adsets: &'a Json, ids: &Vec<String>) -> (r: Option<&'a Json>)
    ensures
        opt_json(r) == described(adsets@, views(ids@)),
{
    let ghost all = views(ids@);
    let mut i: usize = 0;
    assert(all.skip(0) =~= all);
    while i < ids.len()
        invariant
            i <= ids@.len(),
            all == views(ids@),
            described(adsets@, all) == described(adsets@, all.skip(i as int)),
        decreases ids.len() - i,
    {
        assert(all[i as int] == ids@[i as int]@);
        assert(all.skip(i as int).drop_first() =~= all.skip(i + 1));
        match adsets.get(ids[i].as_str()) {
            Some(a) => {
                if is_object(a) {
                    return Some(a);
                }
            },
            None => {},
        }
        i += 1;
    }
    None
}

pub open spec fn under(o: Option<JsonV>, key: Seq<char>) -> Option<JsonV> {
    match o {
        Some(j) => member(j, key),
        None => None,
    }
}

fn get_under<'a>(o: Option<&'a Json>, key: &str) -> (r: Option<&'a Json>)
    ensures
        opt_json(r) == under(opt_json(o), key@),
{
    match o {
        Some(j) => j.get(key),
        None => None,
    }
}

/// The ages of an audience, up to 65 where no end is given.
pub open spec fn age_of(t: Option<JsonV>) -> Option<Seq<char>> {
    match nat_in(under(t, "age_min"@)) {
        Some(lo) => Some(
            dec(lo as nat) + "-"@ + dec(
                match nat_in(under(t, "age_max"@)) {
                    Some(hi) => hi as nat,
                    None => 65,
                },
            ),
        ),
        None => None,
    }
}

/// The genders of an audience.
pub open spec fn genders_of(t: Option<JsonV>) -> Option<Seq<char>> {
    match list_in(under(t, "genders"@)) {
        Some(g) => if g.len() == 1 && nat_in(Some(g[0])) == Some(1u64) {
            Some("men"@)
        } else if g.len() == 1 && nat_in(Some(g[0])) == Some(2u64) {
            Some("women"@)
        } else {
            Some("all"@)
        },
        None => None,
    }
}

/// What an ad set says of its audience.
pub open spec fn specs_of(a: JsonV, shown: Seq<(Seq<char>, Seq<char>)>) -> TargetingSpecsV {
    let t = member(a, "targeting"@);
    TargetingSpecsV {
        geo: match under(t, "geo_locations"@) {
            Some(g) => Some(geo_of(g, shown)),
            None => None,
        },
        age: age_of(t),
        genders: genders_of(t),
        learning: text_in(pointer(a, "/learning_stage_info/status"@)),
        optimization_goal: text_in(member(a, "optimization_goal"@)),
    }
}

pub open spec fn opt_specs(o: Option<TargetingSpecs>) -> Option<TargetingSpecsV> {
    match o {
        Some(s) => Some(s@),
        None => None,
    }
}

fn find_nat(o: Option<&Json>) -> (r: Option<u64>)
    ensures
        r == nat_in(opt_json(o)),
{
    match o {
        Some(j) => j.as_u64(),
        None => None,
    }
}

fn find_age(t: Option<&Json>) -> (r: Option<String>)
    ensures
        opt_view(r) == age_of(opt_json(t)),
{
    match find_nat(get_under(t, "age_min")) {
        Some(lo) => {
            let hi: u64 = match find_nat(get_under(t, "age_max")) {
                Some(h) => h,
                None => 65,
            };
            Some(cat3(decimal(lo).as_str(), "-", decimal(hi).as_str()))
        },
        None => None,
    }
}

fn find_genders(t: Option<&Json>) -> (r: Option<String>)
    ensures
        opt_view(r) == genders_of(opt_json(t)),
{
    match get_under(t, "genders") {
        Some(j) => match j.as_array() {
            Some(g) => {
                assert(list_view(g@).len() == g@.len());
                let only: Option<u64> = if g.len() == 1 {
                    assert(list_view(g@)[0] == g@[0]@);
                    g[0].as_u64()
                } else {
                    None
                };
                match only {
                    Some(n) => if n == 1 {
                        Some("men".to_owned())
                    } else if n == 2 {
                        Some("women".to_owned())
                    } else {
                        Some("all".to_owned())
                    },
                    None => Some("all".to_owned()),
                }
            },
            None => None,
        },
        None => None,
    }
}

fn copy_text(o: Option<&str>) -> (r: Option<String>)
    ensures
        opt_view(r) == (match o {
            Some(s) => Some(s@),
            None => None,
        }),
{
    match o {
        Some(s) => Some(s.to_owned()),
        None => None,
    }
}

/// Finds what the first ad set that is described says of its audience; `shown` has the numbers
/// that are shown otherwise than they are written.
pub fn specs_for(adsets: &Json, ids: &Vec<String>, shown: &TextMap) -> (r: Option<TargetingSpecs>)
    ensures
        opt_specs(r) == (match described(adsets@, views(ids@)) {
            Some(a) => Some(specs_of(a, shown@)),
            None => None,
        }),
{
    let a = match find_described(adsets, ids) {
        Some(a) => a,
        None => {
            return None;
        },
    };
    let t = a.get("targeting");
    let geo = match get_under(t, "geo_locations") {
        Some(g) => Some(find_geo(g, shown)),
        None => None,
    };
    Some(
        TargetingSpecs {
            geo,
            age: find_age(t),
            genders: find_genders(t),
            learning: copy_text(opt_str(a.pointer("/learning_stage_info/status"))),
            optimization_goal: copy_text(opt_str(a.get("optimization_goal"))),
        },
    )
}

/// The numbers that stand for a radius in a list of places.
pub open spec fn radii_in(items: Seq<JsonV>) -> Seq<Seq<char>>
    decreases items.len(),
{
    if items.len() == 0 {
        Seq::empty()
    } else {
        let before = radii_in(items.drop_last());
        match member(items.last(), "radius"@) {
            Some(JsonV::Number(x)) => before.push(x.text),
            _ => before,
        }
    }
}

/// Lists the numbers that stand for a radius in a list of places, as they are written.
pub fn radius_texts(items: &Vec<Json>) -> (r: Vec<String>)
    ensures
        views(r@) == radii_in(list_view(items@)),
{
    let ghost all = list_view(items@);
    let mut out: Vec<String> = Vec::new();
    let mut i: usize = 0;
    assert(views(out@) =~= Seq::empty());
    assert(all.take(0) =~= Seq::empty());
    while i < items.len()
        invariant
            i <= items@.len(),
            all == list_view(items@),
            views(out@) == radii_in(all.take(i as int)),
        decreases items.len() - i,
    {
        assert(all.take(i + 1).drop_last() =~= all.take(i as int));
        assert(all[i as int] == items@[i as int]@);
        match items[i].get("radius") {
            Some(j) => match j {
                Json::Number(x) => {
                    push_text(&mut out, x.text.clone());
                },
                _ => {},
            },
            None => {},
        }
        i += 1;
    }
    assert(all.take(i as int) =~= all);
    out
}

} // verus!
