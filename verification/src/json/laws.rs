//! Where a pointer leads in a document.

use crate::json::{find_key, member, pointer, step, unescaped, walk, JsonV};
use crate::strs::{
    is_digit, lemma_split_on_len, lemma_split_on_piece, number_of, occurs_at, replaced,
    replaced_from, split_on, without_plus,
};
use vstd::prelude::*;

verus! {

/// Whether a name stands for itself in a pointer.
pub open spec fn is_plain(name: Seq<char>) -> bool {
    forall|i: int| 0 <= i < name.len() ==> #[trigger] name[i] != '/' && name[i] != '~'
}

/// Whether a name is that of a member, and never an index.
pub open spec fn is_name(name: Seq<char>) -> bool {
    is_plain(name) && name.len() > 0 && !is_digit(name[0]) && name[0] != '+'
}

/// The member of a document that may be missing.
pub open spec fn below(j: Option<JsonV>, name: Seq<char>) -> Option<JsonV> {
    match j {
        Some(o) => member(o, name),
        None => None,
    }
}

proof fn lemma_nothing_replaced(s: Seq<char>, p: Seq<char>, q: Seq<char>, from: int)
    requires
        0 <= from <= s.len(),
        p.len() > 0,
        forall|i: int| 0 <= i < s.len() ==> #[trigger] s[i] != p[0],
    ensures
        replaced_from(s, p, q, from) == s.skip(from),
    decreases s.len() - from,
{
    if from < s.len() {
        lemma_nothing_replaced(s, p, q, from + 1);
        if occurs_at(s, p, from) {
            assert(s.subrange(from, from + p.len())[0] == s[from]);
        }
        assert(seq![s[from]] + s.skip(from + 1) =~= s.skip(from));
    } else {
        assert(s.skip(from) =~= Seq::empty());
    }
}

proof fn lemma_plain_is_itself(name: Seq<char>)
    requires
        is_plain(name),
    ensures
        unescaped(name) == name,
{
    reveal_strlit("~1");
    reveal_strlit("~0");
    assert("~1"@.len() == 2 && "~1"@[0] == '~');
    assert("~0"@.len() == 2 && "~0"@[0] == '~');
    lemma_nothing_replaced(name, "~1"@, "/"@, 0);
    assert(name.skip(0) =~= name);
    assert(replaced(name, "~1"@, "/"@) == name);
    lemma_nothing_replaced(name, "~0"@, "~"@, 0);
}

proof fn lemma_walk_further(j: JsonV, tokens: Seq<Seq<char>>, t: Seq<char>)
    ensures
        walk(j, tokens.push(t)) == match walk(j, tokens) {
            Some(n) => step(n, t),
            None => None,
        },
    decreases tokens.len(),
{
    let all = tokens.push(t);
    if tokens.len() == 0 {
        assert(all.drop_first() =~= Seq::empty());
        match step(j, t) {
            Some(n) => {
                assert(walk(n, all.drop_first()) == Some(n));
            },
            None => {},
        }
    } else {
        assert(all.drop_first() =~= tokens.drop_first().push(t));
        match step(j, tokens[0]) {
            Some(n) => {
                lemma_walk_further(n, tokens.drop_first(), t);
            },
            None => {},
        }
    }
}

/// The empty pointer leads to the document itself. A pointer with one more name leads one step
/// further.
pub proof fn law_pointer_goes_step_by_step(j: JsonV, path: Seq<char>, name: Seq<char>)
    requires
        path.len() == 0 || path[0] == '/',
        is_plain(name),
    ensures
        pointer(j, Seq::empty()) == Some(j),
        pointer(j, path + seq!['/'] + name) == match pointer(j, path) {
            Some(n) => step(n, name),
            None => None,
        },
{
    let ahead = path + seq!['/'];
    let full = ahead + name;
    let un = |t: Seq<char>| unescaped(t);
    lemma_split_on_len(path, '/');
    assert(ahead.drop_last() =~= path);
    assert(split_on(ahead, '/') == split_on(path, '/').push(Seq::empty()));
    lemma_split_on_piece(ahead, name, '/');
    let tokens = split_on(path, '/').drop_first();
    assert(split_on(ahead, '/').drop_last() =~= split_on(path, '/'));
    assert(Seq::<char>::empty() + name =~= name);
    assert(split_on(full, '/') =~= split_on(path, '/').push(name));
    assert(split_on(full, '/').drop_first() =~= tokens.push(name));
    lemma_plain_is_itself(name);
    assert(tokens.push(name).map_values(un) =~= tokens.map_values(un).push(name));
    lemma_walk_further(j, tokens.map_values(un), name);
    assert(full[0] == '/');
    if path.len() == 0 {
        assert(split_on(path, '/') =~= seq![Seq::empty()]);
        assert(tokens.map_values(un) =~= Seq::empty());
        assert(walk(j, tokens.map_values(un)) == Some(j));
    }
}

/// A step by a name leads to the member of that name, and to nothing in a list.
pub proof fn law_name_leads_to_its_member(j: JsonV, name: Seq<char>)
    requires
        is_name(name),
    ensures
        step(j, name) == member(j, name),
{
    assert(without_plus(name) == name);
}

/// In a list the index 0 leads to the first element.
pub proof fn law_zero_leads_to_the_first(items: Seq<JsonV>)
    ensures
        step(JsonV::List(items), "0"@) == if items.len() > 0 {
            Some(items[0])
        } else {
            None
        },
{
    reveal_strlit("0");
    assert("0"@.len() == 1 && "0"@[0] == '0');
    assert(without_plus("0"@) == "0"@);
    assert("0"@.drop_last() =~= Seq::empty());
    reveal_with_fuel(number_of, 2);
}

/// A pointer with one more name leads to the member of that name.
pub proof fn law_name_leads_further(j: JsonV, path: Seq<char>, name: Seq<char>)
    requires
        is_name(name),
        path.len() > 0,
        path[0] == '/',
    ensures
        pointer(j, path + seq!['/'] + name) == below(pointer(j, path), name),
{
    law_pointer_goes_step_by_step(j, path, name);
    match pointer(j, path) {
        Some(n) => {
            law_name_leads_to_its_member(n, name);
        },
        None => {},
    }
}

/// A pointer of three names leads to the member of the member of the member.
pub proof fn law_three_names(
    j: JsonV,
    path: Seq<char>,
    a: Seq<char>,
    b: Seq<char>,
    c: Seq<char>,
)
    requires
        is_name(a) && is_name(b) && is_name(c),
        path == seq!['/'] + a + seq!['/'] + b + seq!['/'] + c,
    ensures
        pointer(j, path) == below(below(member(j, a), b), c),
{
    let two = seq!['/'] + a + seq!['/'] + b;
    law_two_names(j, two, a, b);
    law_name_leads_further(j, two, c);
}

/// A pointer of a name and the index 0 leads to the first element of the list of that name.
pub proof fn law_name_and_first(j: JsonV, path: Seq<char>, a: Seq<char>, items: Seq<JsonV>)
    requires
        is_name(a),
        path == seq!['/'] + a + seq!['/'] + "0"@,
        member(j, a) == Some(JsonV::List(items)),
    ensures
        pointer(j, path) == if items.len() > 0 {
            Some(items[0])
        } else {
            None
        },
{
    reveal_strlit("0");
    let none = Seq::<char>::empty();
    let one = seq!['/'] + a;
    assert(none + seq!['/'] + a =~= one);
    law_pointer_goes_step_by_step(j, none, a);
    law_name_leads_to_its_member(j, a);
    law_pointer_goes_step_by_step(j, one, "0"@);
    law_zero_leads_to_the_first(items);
}

/// A pointer of two names leads to the member of the member.
pub proof fn law_two_names(j: JsonV, path: Seq<char>, a: Seq<char>, b: Seq<char>)
    requires
        is_name(a),
        is_name(b),
        path == seq!['/'] + a + seq!['/'] + b,
    ensures
        pointer(j, path) == below(member(j, a), b),
{
    let none = Seq::<char>::empty();
    assert(none + seq!['/'] + a =~= seq!['/'] + a);
    law_pointer_goes_step_by_step(j, none, a);
    law_pointer_goes_step_by_step(j, seq!['/'] + a, b);
    law_name_leads_to_its_member(j, a);
    match member(j, a) {
        Some(n) => {
            law_name_leads_to_its_member(n, b);
        },
        None => {},
    }
}

// Members of small objects

/// The members of an object with two of them.
pub proof fn lemma_two_members(a: (Seq<char>, JsonV), b: (Seq<char>, JsonV))
    requires
        a.0 != b.0,
    ensures
        ({
            let j = JsonV::Object(seq![a, b]);
            &&& member(j, a.0) == Some(a.1)
            &&& member(j, b.0) == Some(b.1)
            &&& forall|k: Seq<char>| k != a.0 && k != b.0 ==> (#[trigger] member(j, k)) is None
        }),
{
    reveal_with_fuel(find_key, 3);
    assert(seq![a, b].drop_first() =~= seq![b]);
    assert(seq![b].drop_first() =~= Seq::empty());
}

/// The members of an object with three of them.
pub proof fn lemma_three_members(
    a: (Seq<char>, JsonV),
    b: (Seq<char>, JsonV),
    c: (Seq<char>, JsonV),
)
    requires
        a.0 != b.0 && a.0 != c.0 && b.0 != c.0,
    ensures
        ({
            let j = JsonV::Object(seq![a, b, c]);
            &&& member(j, a.0) == Some(a.1)
            &&& member(j, b.0) == Some(b.1)
            &&& member(j, c.0) == Some(c.1)
            &&& forall|k: Seq<char>|
                k != a.0 && k != b.0 && k != c.0 ==> (#[trigger] member(j, k)) is None
        }),
{
    lemma_two_members(b, c);
    let rest = JsonV::Object(seq![b, c]);
    assert(seq![a, b, c].drop_first() =~= seq![b, c]);
    let whole = JsonV::Object(seq![a, b, c]);
    assert(forall|k: Seq<char>|
        k != a.0 ==> #[trigger] member(whole, k) == member(rest, k));
}

/// The members of an object with four of them.
pub proof fn lemma_four_members(
    a: (Seq<char>, JsonV),
    b: (Seq<char>, JsonV),
    c: (Seq<char>, JsonV),
    d: (Seq<char>, JsonV),
)
    requires
        a.0 != b.0 && a.0 != c.0 && a.0 != d.0,
        b.0 != c.0 && b.0 != d.0 && c.0 != d.0,
    ensures
        ({
            let j = JsonV::Object(seq![a, b, c, d]);
            &&& member(j, a.0) == Some(a.1)
            &&& member(j, b.0) == Some(b.1)
            &&& member(j, c.0) == Some(c.1)
            &&& member(j, d.0) == Some(d.1)
            &&& forall|k: Seq<char>|
                k != a.0 && k != b.0 && k != c.0 && k != d.0 ==> (#[trigger] member(j, k)) is None
        }),
{
    lemma_three_members(b, c, d);
    let rest = JsonV::Object(seq![b, c, d]);
    assert(seq![a, b, c, d].drop_first() =~= seq![b, c, d]);
    let whole = JsonV::Object(seq![a, b, c, d]);
    assert(forall|k: Seq<char>|
        k != a.0 ==> #[trigger] member(whole, k) == member(rest, k));
}

/// The members of an object with five of them.
pub proof fn lemma_five_members(
    a: (Seq<char>, JsonV),
    b: (Seq<char>, JsonV),
    c: (Seq<char>, JsonV),
    d: (Seq<char>, JsonV),
    e: (Seq<char>, JsonV),
)
    requires
        a.0 != b.0 && a.0 != c.0 && a.0 != d.0 && a.0 != e.0,
        b.0 != c.0 && b.0 != d.0 && b.0 != e.0,
        c.0 != d.0 && c.0 != e.0 && d.0 != e.0,
    ensures
        ({
            let j = JsonV::Object(seq![a, b, c, d, e]);
            &&& member(j, a.0) == Some(a.1)
            &&& member(j, b.0) == Some(b.1)
            &&& member(j, c.0) == Some(c.1)
            &&& member(j, d.0) == Some(d.1)
            &&& member(j, e.0) == Some(e.1)
        }),
{
    lemma_four_members(b, c, d, e);
    let rest = JsonV::Object(seq![b, c, d, e]);
    assert(seq![a, b, c, d, e].drop_first() =~= seq![b, c, d, e]);
    let whole = JsonV::Object(seq![a, b, c, d, e]);
    assert(forall|k: Seq<char>|
        k != a.0 ==> #[trigger] member(whole, k) == member(rest, k));
}

} // verus!
