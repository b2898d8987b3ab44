//! What is told of an audience, and what is read across audiences.

use crate::json::laws::{below, law_two_names};
use crate::json::{member, JsonV};
use crate::report::cross::{cross_line, cross_lines, CrossCard};
use crate::report::markup::lemma_four_holes;
use crate::report::specs::{
    age_of, archetype_of, countries_of, described, genders_of, geo_of, geo_text, number_shown,
    place_label, places_under, specs_of, texts_among,
};
use crate::strs::{dec, has_text, joined};
use vstd::prelude::*;

verus! {

// Kinds

/// A targeting by pincode is told before one by a lookalike, that before a broad one, and that
/// before one in detail; every other one is of no kind.
pub proof fn law_kinds_have_their_words(n: Seq<char>)
    ensures
        has_text(n, "pincode"@) ==> archetype_of(n) == "Pincode"@,
        has_text(n, "pin code"@) ==> archetype_of(n) == "Pincode"@,
        archetype_of(n) == "Pincode"@ ==> has_text(n, "pincode"@) || has_text(n, "pin code"@),
        archetype_of(n) != "Pincode"@ && has_text(n, "lookalike"@) ==> archetype_of(n)
            == "Lookalike"@,
        archetype_of(n) != "Pincode"@ && has_text(n, "lal"@) ==> archetype_of(n) == "Lookalike"@,
        archetype_of(n) == "Lookalike"@ ==> has_text(n, "lookalike"@) || has_text(n, "lal"@),
        archetype_of(n) != "Pincode"@ && archetype_of(n) != "Lookalike"@ && (has_text(n, "income"@)
            || has_text(n, "broad"@) || has_text(n, "advantage"@)) ==> archetype_of(n)
            == "Broad-Income"@,
        archetype_of(n) == "Broad-Income"@ ==> has_text(n, "income"@) || has_text(n, "broad"@)
            || has_text(n, "advantage"@),
        archetype_of(n) == "Other"@ ==> !has_text(n, "detailed"@) && !has_text(n, "interest"@)
            && !has_text(n, "nri"@),
        archetype_of(n) == "Detailed"@ ==> has_text(n, "detailed"@) || has_text(n, "interest"@)
            || has_text(n, "nri"@),
{
    reveal_strlit("Pincode");
    reveal_strlit("Lookalike");
    reveal_strlit("Broad-Income");
    reveal_strlit("Detailed");
    reveal_strlit("Other");
    assert("Pincode"@.len() == 7 && "Lookalike"@.len() == 9 && "Broad-Income"@.len() == 12
        && "Detailed"@.len() == 8 && "Other"@.len() == 5);
}

// Places

/// A place is told by its name, and by the radius around it where it has one.
pub proof fn law_place_has_its_radius(e: JsonV, shown: Seq<(Seq<char>, Seq<char>)>, name: Seq<char>)
    requires
        member(e, "name"@) == Some(JsonV::Text(name)),
    ensures
        member(e, "radius"@) matches Some(JsonV::Number(x)) ==> place_label(e, shown) == Some(
            name + " "@ + number_shown(shown, x.text) + "km"@,
        ),
        !(member(e, "radius"@) matches Some(JsonV::Number(_))) ==> place_label(e, shown) == Some(
            name,
        ),
{
    match member(e, "radius"@) {
        Some(JsonV::Number(x)) => {
            let n = number_shown(shown, x.text);
            assert(name + (" "@ + n + "km"@) =~= name + " "@ + n + "km"@);
        },
        _ => {},
    }
}

/// One or two places are named; of more, the first two are, and how many there are beside them.
pub proof fn law_two_places_are_named(a: Seq<char>, b: Seq<char>, more: Seq<Seq<char>>)
    ensures
        geo_text(Seq::empty()) == "-"@,
        geo_text(seq![a]) == joined(seq![a], ", "@),
        geo_text(seq![a, b]) == joined(seq![a, b], ", "@),
        more.len() > 0 ==> geo_text(seq![a, b] + more) == joined(seq![a, b], ", "@) + " +"@ + dec(
            more.len(),
        ) + " more"@,
{
    if more.len() > 0 {
        assert((seq![a, b] + more).take(2) =~= seq![a, b]);
    }
}

/// An audience is told by its cities, regions and places, one behind the other, and by its
/// countries only where it has none of these.
pub proof fn law_places_go_before_countries(g: JsonV, shown: Seq<(Seq<char>, Seq<char>)>)
    ensures
        ({
            let cities = places_under(g, "cities"@, shown);
            let regions = places_under(g, "regions"@, shown);
            let places = places_under(g, "custom_locations"@, shown);
            &&& cities.len() > 0 || regions.len() > 0 || places.len() > 0 ==> geo_of(g, shown)
                == geo_text(cities + regions + places)
            &&& cities.len() == 0 && regions.len() == 0 && places.len() == 0 ==> geo_of(g, shown)
                == geo_text(countries_of(g))
        }),
{
}

proof fn lemma_texts(items: Seq<JsonV>)
    ensures
        texts_among(items) == items.filter(|j: JsonV| j is Text).map_values(
            |j: JsonV| j->Text_0,
        ),
    decreases items.len(),
{
    reveal(Seq::filter);
    let is_text = |j: JsonV| j is Text;
    let text = |j: JsonV| j->Text_0;
    if items.len() > 0 {
        lemma_texts(items.drop_last());
        let before = items.drop_last().filter(is_text);
        if items.last() is Text {
            assert(before.push(items.last()).map_values(text) =~= before.map_values(text).push(
                items.last()->Text_0,
            ));
        }
    } else {
        assert(items.filter(is_text).map_values(text) =~= Seq::empty());
    }
}

/// The countries of an audience are the texts of the list of them.
pub proof fn law_countries_are_texts(g: JsonV, items: Seq<JsonV>)
    requires
        member(g, "countries"@) == Some(JsonV::List(items)),
    ensures
        countries_of(g) == items.filter(|j: JsonV| j is Text).map_values(|j: JsonV| j->Text_0),
{
    lemma_texts(items);
}

// Ages and genders

/// The ages of an audience go from the least to the greatest one, and to 65 where none is the
/// greatest.
pub proof fn law_ages_go_up_to_65(t: JsonV)
    ensures
        member(t, "age_min"@) is None ==> age_of(Some(t)) is None,
        member(t, "age_min"@) matches Some(JsonV::Number(lo)) ==> (lo.unsigned matches Some(a) ==> {
            &&& member(t, "age_max"@) is None ==> age_of(Some(t)) == Some(
                dec(a as nat) + "-"@ + dec(65),
            )
            &&& member(t, "age_max"@) matches Some(JsonV::Number(hi)) ==> (
            hi.unsigned matches Some(b) ==> age_of(Some(t)) == Some(
                dec(a as nat) + "-"@ + dec(b as nat),
            ))
        }),
{
}

/// An audience of one gender is of men under 1 and of women under 2; every other list means all,
/// and without a list nothing is said.
pub proof fn law_genders_have_their_numbers(t: JsonV, g: Seq<JsonV>)
    requires
        member(t, "genders"@) == Some(JsonV::List(g)),
    ensures
        g.len() == 1 && (g[0] matches JsonV::Number(n) && n.unsigned == Some(1u64)) ==> genders_of(
            Some(t),
        ) == Some("men"@),
        g.len() == 1 && (g[0] matches JsonV::Number(n) && n.unsigned == Some(2u64)) ==> genders_of(
            Some(t),
        ) == Some("women"@),
        g.len() != 1 ==> genders_of(Some(t)) == Some("all"@),
{
}

// Ad sets

/// What is told of audiences stands in the first of the ad sets that is an object.
pub proof fn law_first_described_adset_counts(adsets: JsonV, ids: Seq<Seq<char>>)
    ensures
        match described(adsets, ids) {
            Some(a) => a is Object && exists|k: int|
                0 <= k < ids.len() && member(adsets, #[trigger] ids[k]) == Some(a) && forall|j: int|
                    0 <= j < k ==> !(member(adsets, #[trigger] ids[j]) matches Some(
                        JsonV::Object(_),
                    )),
            None => forall|k: int|
                0 <= k < ids.len() ==> !(member(adsets, #[trigger] ids[k]) matches Some(
                    JsonV::Object(_),
                )),
        },
    decreases ids.len(),
{
    if ids.len() > 0 {
        let rest = ids.drop_first();
        law_first_described_adset_counts(adsets, rest);
        assert(forall|k: int| 0 <= k < rest.len() ==> #[trigger] rest[k] == ids[k + 1]);
        match member(adsets, ids[0]) {
            Some(JsonV::Object(_)) => {
                assert(member(adsets, ids[0]) == described(adsets, ids));
            },
            _ => {
                match described(adsets, rest) {
                    Some(a) => {
                        let k = choose|k: int|
                            0 <= k < rest.len() && member(adsets, #[trigger] rest[k]) == Some(a)
                                && forall|j: int|
                                0 <= j < k ==> !(member(adsets, #[trigger] rest[j]) matches Some(
                                    JsonV::Object(_),
                                ));
                        assert(member(adsets, ids[k + 1]) == Some(a));
                        assert forall|j: int| 0 <= j < k + 1 implies !(member(
                            adsets,
                            #[trigger] ids[j],
                        ) matches Some(JsonV::Object(_))) by {
                            if j > 0 {
                                assert(rest[j - 1] == ids[j]);
                            }
                        }
                    },
                    None => {
                        assert forall|j: int| 0 <= j < ids.len() implies !(member(
                            adsets,
                            #[trigger] ids[j],
                        ) matches Some(JsonV::Object(_))) by {
                            if j > 0 {
                                assert(rest[j - 1] == ids[j]);
                            }
                        }
                    },
                }
            },
        }
    }
}

/// An ad set tells of its audience what stands under `targeting`, where its learning stands, and
/// what it is optimised for.
pub proof fn law_adset_tells_its_audience(
    a: JsonV,
    t: JsonV,
    shown: Seq<(Seq<char>, Seq<char>)>,
    s: Seq<char>,
)
    requires
        member(a, "targeting"@) == Some(t),
    ensures
        ({
            let x = specs_of(a, shown);
            &&& x.age == age_of(Some(t)) && x.genders == genders_of(Some(t))
            &&& member(t, "geo_locations"@) matches Some(g) ==> x.geo == Some(geo_of(g, shown))
            &&& member(t, "geo_locations"@) is None ==> x.geo is None
            &&& x.learning == Some(s) <==> below(
                member(a, "learning_stage_info"@),
                "status"@,
            ) == Some(JsonV::Text(s))
            &&& x.optimization_goal == Some(s) <==> member(a, "optimization_goal"@) == Some(
                JsonV::Text(s),
            )
        }),
{
    reveal_strlit("learning_stage_info");
    reveal_strlit("status");
    reveal_strlit("/learning_stage_info/status");
    assert("/learning_stage_info/status"@ =~= seq!['/'] + "learning_stage_info"@ + seq!['/']
        + "status"@);
    law_two_names(a, "/learning_stage_info/status"@, "learning_stage_info"@, "status"@);
}

// Across audiences

/// A creative is told of just where it ran in two targetings or more, has a best one, five leads or
/// more elsewhere, and its leads are a good deal cheaper in the best one.
pub proof fn law_concentration_is_told(c: CrossCard)
    ensures
        cross_line(c) is Some <==> c.best is Some && c.targetings > 1 && c.rest_leads > 4
            && c.concentrated,
        cross_line(c) matches Some(t) ==> t == "\""@ + c.name@ + "\" earns leads at Rs "@
            + c.best_cost@ + " in "@ + (c.best->0)@ + " vs Rs "@ + c.rest_cost@
            + " elsewhere - concentrate it there."@,
{
    match c.best {
        Some(t) => {
            let hole = seq!['{', '}'];
            reveal_strlit("\"");
            reveal_strlit("\" earns leads at Rs ");
            reveal_strlit(" in ");
            reveal_strlit(" vs Rs ");
            reveal_strlit(" elsewhere - concentrate it there.");
            reveal_strlit(
                "\"{}\" earns leads at Rs {} in {} vs Rs {} elsewhere - concentrate it there.",
            );
            assert("\"{}\" earns leads at Rs {} in {} vs Rs {} elsewhere - concentrate it there."@
                =~= "\""@ + hole + ("\" earns leads at Rs "@ + hole + (" in "@ + hole + (" vs Rs "@
                + hole + " elsewhere - concentrate it there."@))));
            lemma_four_holes(
                "\"{}\" earns leads at Rs {} in {} vs Rs {} elsewhere - concentrate it there."@,
                "\""@,
                "\" earns leads at Rs "@,
                " in "@,
                " vs Rs "@,
                " elsewhere - concentrate it there."@,
                c.name@,
                c.best_cost@,
                t@,
                c.rest_cost@,
            );
        },
        None => {},
    }
}

/// No more than two creatives are told of: the first two of those that can be.
pub proof fn law_first_two_lines_are_told(cards: Seq<CrossCard>)
    ensures
        ({
            let all = cards.filter(|c: CrossCard| cross_line(c) is Some).map_values(
                |c: CrossCard| cross_line(c)->0,
            );
            let lines = cross_lines(cards);
            &&& lines.len() == if all.len() < 2 {
                all.len()
            } else {
                2
            }
            &&& forall|i: int| 0 <= i < lines.len() ==> #[trigger] lines[i] == all[i]
        }),
    decreases cards.len(),
{
    reveal(Seq::filter);
    let can = |c: CrossCard| cross_line(c) is Some;
    let text = |c: CrossCard| cross_line(c)->0;
    if cards.len() > 0 {
        law_first_two_lines_are_told(cards.drop_last());
        let before = cards.drop_last().filter(can);
        if can(cards.last()) {
            assert(before.push(cards.last()).map_values(text) =~= before.map_values(text).push(
                text(cards.last()),
            ));
        }
    }
}

} // verus!
