//! What a record is read from.

use crate::json::{find_key, JsonV};
use crate::records::{
    elements_fault, field, kind_in, members_fault, texts_of, value_fault, FieldKind,
};
use vstd::prelude::*;

verus! {

/// A record is read from an object by the names of its fields, and from a list by their places.
pub proof fn law_fields_have_a_name_and_a_place(
    pairs: Seq<(Seq<char>, JsonV)>,
    items: Seq<JsonV>,
    key: Seq<char>,
    i: int,
)
    requires
        0 <= i,
    ensures
        field(JsonV::Object(pairs), key, i) == find_key(pairs, key),
        i < items.len() ==> field(JsonV::List(items), key, i) == Some(items[i]),
        i >= items.len() ==> field(JsonV::List(items), key, i) is None,
{
}

/// A list reads as texts just where every element is one, and gives them in its order.
pub proof fn law_texts_are_read_one_by_one(items: Seq<JsonV>)
    ensures
        texts_of(items) is Some <==> forall|i: int|
            0 <= i < items.len() ==> (#[trigger] items[i]) is Text,
        texts_of(items) matches Some(v) ==> v.len() == items.len() && forall|i: int|
            0 <= i < v.len() ==> JsonV::Text(#[trigger] v[i]) == items[i],
    decreases items.len(),
{
    if items.len() > 0 {
        let rest = items.drop_last();
        law_texts_are_read_one_by_one(rest);
        assert(forall|i: int| 0 <= i < rest.len() ==> #[trigger] rest[i] == items[i]);
        assert(forall|i: int| 0 <= i < rest.len() ==> rest[i] == #[trigger] items[i]);
        assert(items[items.len() - 1] == items.last());
    }
}

/// A field has the kind that stands at the first place of its name.
pub proof fn law_field_has_its_first_kind(fields: Seq<(Seq<char>, FieldKind)>, k: int)
    requires
        0 <= k < fields.len(),
        forall|i: int| 0 <= i < k ==> (#[trigger] fields[i]).0 != fields[k].0,
    ensures
        kind_in(fields, fields[k].0) == Some(fields[k].1),
    decreases fields.len(),
{
    if k > 0 {
        let rest = fields.drop_first();
        assert(fields[0].0 != fields[k].0);
        assert forall|i: int| 0 <= i < k - 1 implies (#[trigger] rest[i]).0 != rest[k - 1].0 by {
            assert(rest[i] == fields[i + 1]);
        }
        law_field_has_its_first_kind(rest, k - 1);
    }
}

/// What is said against a member, where it is one of the fields.
pub open spec fn member_fault(
    fields: Seq<(Seq<char>, FieldKind)>,
    p: (Seq<char>, JsonV),
) -> Option<Seq<char>> {
    match kind_in(fields, p.0) {
        Some(k) => value_fault(k, p.1),
        None => None,
    }
}

/// What is said against an object is what is said against its first member at fault, and nothing
/// where none is.
pub proof fn law_first_fault_is_told(
    fields: Seq<(Seq<char>, FieldKind)>,
    pairs: Seq<(Seq<char>, JsonV)>,
)
    ensures
        members_fault(fields, pairs) is None <==> forall|i: int|
            0 <= i < pairs.len() ==> member_fault(fields, #[trigger] pairs[i]) is None,
        members_fault(fields, pairs) is Some ==> exists|k: int|
            0 <= k < pairs.len() && members_fault(fields, pairs) == member_fault(
                fields,
                #[trigger] pairs[k],
            ) && forall|i: int| 0 <= i < k ==> member_fault(fields, #[trigger] pairs[i]) is None,
    decreases pairs.len(),
{
    if pairs.len() > 0 {
        let rest = pairs.drop_first();
        law_first_fault_is_told(fields, rest);
        if member_fault(fields, pairs[0]) is None {
            assert(members_fault(fields, pairs) == members_fault(fields, rest));
            assert forall|i: int| 0 < i < pairs.len() implies #[trigger] pairs[i] == rest[i - 1] by {}
            if members_fault(fields, rest) is Some {
                let k = choose|k: int|
                    0 <= k < rest.len() && members_fault(fields, rest) == member_fault(
                        fields,
                        #[trigger] rest[k],
                    ) && forall|i: int|
                        0 <= i < k ==> member_fault(fields, #[trigger] rest[i]) is None;
                assert(pairs[k + 1] == rest[k]);
                assert forall|i: int| 0 <= i < k + 1 implies member_fault(
                    fields,
                    #[trigger] pairs[i],
                ) is None by {
                    if i > 0 {
                        assert(pairs[i] == rest[i - 1]);
                    }
                }
            } else {
                assert forall|i: int| 0 <= i < pairs.len() implies member_fault(
                    fields,
                    #[trigger] pairs[i],
                ) is None by {
                    if i > 0 {
                        assert(pairs[i] == rest[i - 1]);
                    }
                }
            }
        } else {
            assert(members_fault(fields, pairs) == member_fault(fields, pairs[0]));
        }
    }
}

/// Of a list the elements are held to the kinds of their places, in turn.
pub proof fn law_elements_are_held_to_their_places(
    fields: Seq<(Seq<char>, FieldKind)>,
    items: Seq<JsonV>,
    from: int,
    k: int,
)
    requires
        0 <= from <= k < items.len(),
        k < fields.len(),
        forall|i: int|
            from <= i < k ==> value_fault((#[trigger] fields[i]).1, items[i]) is None,
        value_fault(fields[k].1, items[k]) is Some,
    ensures
        elements_fault(fields, items, from) == value_fault(fields[k].1, items[k]),
    decreases k - from,
{
    if from < k {
        assert(value_fault(fields[from].1, items[from]) is None);
        law_elements_are_held_to_their_places(fields, items, from + 1, k);
    }
}

} // verus!
