//! What holds of every report: nothing that was delivered, and no ticket that an ad brought, is
//! dropped or counted twice.

use crate::crm::tickets_in;
use crate::report::ads::{
    ads_of, came_of, fact_in, facts_of, ids_of, law_no_ticket_is_dropped,
    law_tickets_have_their_ad, no_sum, plus, sum_of, timely_count, total_of, AdV, FactV, Sum,
    TicketV,
};
use crate::report::card::{
    card_of, group_part, is_shown, member_targetings, members, targeting_part, BookV, CardV,
};
use crate::report::{
    book_of, cards_of, keys_in, products_in, report_of, sections_of, SectionV,
};
use crate::schema::{ContactRowV, CreativeRowV, LeadRowV};
use crate::sets::{law_sorted_set, lemma_lt_irreflexive, lemma_place_of, sorted_set};
use crate::snapshot::{AdsDailyRowV, SnapshotV};
use crate::window::window_of;
use vstd::prelude::*;

verus! {

pub open spec fn add_sum(a: Sum, b: Sum) -> Sum {
    Sum {
        impressions: a.impressions + b.impressions,
        reach: a.reach + b.reach,
        clicks: a.clicks + b.clicks,
        m_leads: a.m_leads + b.m_leads,
    }
}

/// What the groups of a product and of keys delivered together.
pub open spec fn keys_sum(
    facts: Seq<FactV>,
    ads: Seq<AdV>,
    product: Seq<char>,
    keys: Seq<Seq<char>>,
) -> Sum
    decreases keys.len(),
{
    if keys.len() == 0 {
        no_sum()
    } else {
        add_sum(
            keys_sum(facts, ads, product, keys.drop_last()),
            sum_of(facts, ads, group_part(product, keys.last())),
        )
    }
}

/// What the groups of products delivered together.
pub open spec fn products_sum(facts: Seq<FactV>, ads: Seq<AdV>, products: Seq<Seq<char>>) -> Sum
    decreases products.len(),
{
    if products.len() == 0 {
        no_sum()
    } else {
        let p = products.last();
        add_sum(
            products_sum(facts, ads, products.drop_last()),
            keys_sum(facts, ads, p, sorted_set(keys_in(ads, p))),
        )
    }
}

/// What the targetings of a group delivered together.
pub open spec fn targetings_sum(
    facts: Seq<FactV>,
    ads: Seq<AdV>,
    product: Seq<char>,
    key: Seq<char>,
    targetings: Seq<Seq<char>>,
) -> Sum
    decreases targetings.len(),
{
    if targetings.len() == 0 {
        no_sum()
    } else {
        add_sum(
            targetings_sum(facts, ads, product, key, targetings.drop_last()),
            sum_of(facts, ads, targeting_part(product, key, targetings.last())),
        )
    }
}

pub open spec fn plus_if(s: Sum, f: FactV, b: bool) -> Sum {
    if b {
        plus(s, f)
    } else {
        s
    }
}

/// Whether no text comes twice.
spec fn each_once(v: Seq<Seq<char>>) -> bool {
    forall|i: int, j: int| 0 <= i < j < v.len() ==> #[trigger] v[i] != #[trigger] v[j]
}

proof fn lemma_set_is_once(v: Seq<Seq<char>>)
    ensures
        each_once(sorted_set(v)),
{
    law_sorted_set(v);
    let s = sorted_set(v);
    assert forall|i: int, j: int| 0 <= i < j < s.len() implies #[trigger] s[i] != #[trigger] s[j] by {
        lemma_lt_irreflexive(s[i]);
    }
}

proof fn lemma_last_once(v: Seq<Seq<char>>, t: Seq<char>)
    requires
        v.len() > 0,
        each_once(v),
    ensures
        each_once(v.drop_last()),
        v.last() == t ==> !v.drop_last().contains(t) && v.contains(t),
        v.last() != t ==> (v.drop_last().contains(t) == v.contains(t)),
{
    let rest = v.drop_last();
    assert forall|i: int, j: int| 0 <= i < j < rest.len() implies #[trigger] rest[i]
        != #[trigger] rest[j] by {
        assert(v[i] != v[j]);
    }
    assert(v[v.len() - 1] == v.last());
    if rest.contains(t) {
        let k = choose|k: int| 0 <= k < rest.len() && rest[k] == t;
        assert(v[k] == t);
        assert(v[k] != v[v.len() - 1]);
    }
    if v.contains(t) && v.last() != t {
        let k = choose|k: int| 0 <= k < v.len() && v[k] == t;
        assert(rest[k] == t);
    }
}

proof fn lemma_keys_add(facts: Seq<FactV>, ads: Seq<AdV>, product: Seq<char>, keys: Seq<Seq<char>>)
    requires
        facts.len() > 0,
        0 <= facts.last().ad < ads.len(),
        each_once(keys),
    ensures
        keys_sum(facts, ads, product, keys) == plus_if(
            keys_sum(facts.drop_last(), ads, product, keys),
            facts.last(),
            ads[facts.last().ad].product == product && keys.contains(ads[facts.last().ad].key),
        ),
    decreases keys.len(),
{
    if keys.len() > 0 {
        let key = ads[facts.last().ad].key;
        lemma_last_once(keys, key);
        lemma_keys_add(facts, ads, product, keys.drop_last());
    }
}

proof fn lemma_key_is_there(ads: Seq<AdV>, i: int)
    requires
        0 <= i < ads.len(),
    ensures
        keys_in(ads, ads[i].product).contains(ads[i].key),
        products_in(ads).contains(ads[i].product),
    decreases ads.len(),
{
    assert(products_in(ads)[i] == ads[i].product);
    let p = ads[i].product;
    let now = keys_in(ads, p);
    if i == ads.len() - 1 {
        assert(now[now.len() - 1] == ads[i].key);
    } else {
        let rest = ads.drop_last();
        lemma_key_is_there(rest, i);
        let before = keys_in(rest, p);
        let k = choose|k: int| 0 <= k < before.len() && before[k] == ads[i].key;
        assert(now[k] == before[k]);
    }
}

proof fn lemma_products_add(facts: Seq<FactV>, ads: Seq<AdV>, products: Seq<Seq<char>>)
    requires
        facts.len() > 0,
        0 <= facts.last().ad < ads.len(),
        each_once(products),
    ensures
        products_sum(facts, ads, products) == plus_if(
            products_sum(facts.drop_last(), ads, products),
            facts.last(),
            products.contains(ads[facts.last().ad].product),
        ),
    decreases products.len(),
{
    if products.len() > 0 {
        let a = ads[facts.last().ad];
        let p = products.last();
        lemma_last_once(products, a.product);
        lemma_products_add(facts, ads, products.drop_last());
        let keys = keys_in(ads, p);
        lemma_set_is_once(keys);
        lemma_keys_add(facts, ads, p, sorted_set(keys));
        if a.product == p {
            lemma_key_is_there(ads, facts.last().ad);
            law_sorted_set(keys);
        }
    }
}

proof fn lemma_nothing_delivered(ads: Seq<AdV>, product: Seq<char>, keys: Seq<Seq<char>>)
    ensures
        keys_sum(Seq::empty(), ads, product, keys) == no_sum(),
    decreases keys.len(),
{
    if keys.len() > 0 {
        lemma_nothing_delivered(ads, product, keys.drop_last());
    }
}

proof fn lemma_nothing_at_all(ads: Seq<AdV>, products: Seq<Seq<char>>)
    ensures
        products_sum(Seq::empty(), ads, products) == no_sum(),
    decreases products.len(),
{
    if products.len() > 0 {
        lemma_nothing_at_all(ads, products.drop_last());
        lemma_nothing_delivered(ads, products.last(), sorted_set(keys_in(ads, products.last())));
    }
}

/// The groups delivered together just what was delivered: nothing is dropped or counted twice.
pub proof fn law_groups_add_up(facts: Seq<FactV>, ads: Seq<AdV>)
    requires
        forall|i: int| 0 <= i < facts.len() ==> 0 <= (#[trigger] facts[i]).ad < ads.len(),
    ensures
        products_sum(facts, ads, sorted_set(products_in(ads))) == total_of(facts),
    decreases facts.len(),
{
    let products = sorted_set(products_in(ads));
    if facts.len() == 0 {
        assert(facts =~= Seq::empty());
        lemma_nothing_at_all(ads, products);
    } else {
        let rest = facts.drop_last();
        assert forall|i: int| 0 <= i < rest.len() implies 0 <= (#[trigger] rest[i]).ad
            < ads.len() by {
            assert(rest[i] == facts[i]);
        }
        law_groups_add_up(rest, ads);
        assert(facts[facts.len() - 1] == facts.last());
        lemma_set_is_once(products_in(ads));
        lemma_products_add(facts, ads, products);
        lemma_key_is_there(ads, facts.last().ad);
        law_sorted_set(products_in(ads));
    }
}

/// Every row of the days is one of an ad of the report.
pub proof fn law_every_row_has_its_ad(
    rows: Seq<AdsDailyRowV>,
    picked: Seq<int>,
    m: Seq<u64>,
    creatives: Seq<CreativeRowV>,
)
    ensures
        ({
            let ads = ads_of(rows, picked, creatives);
            let facts = facts_of(rows, picked, m, ads);
            forall|i: int| 0 <= i < facts.len() ==> 0 <= (#[trigger] facts[i]).ad < ads.len()
        }),
{
    let ads = ads_of(rows, picked, creatives);
    let facts = facts_of(rows, picked, m, ads);
    let ids = crate::report::ads::ad_ids_of(rows, picked);
    law_sorted_set(ids);
    assert(ids_of(ads) =~= sorted_set(ids));
    assert forall|i: int| 0 <= i < facts.len() implies 0 <= (#[trigger] facts[i]).ad < ads.len() by {
        let id = rows[picked[i]].ad_id;
        assert(ids[i] == id);
        assert(sorted_set(ids).contains(id));
        lemma_place_of(ids_of(ads), id);
    }
}

// Targetings

proof fn lemma_targetings_add(
    facts: Seq<FactV>,
    ads: Seq<AdV>,
    product: Seq<char>,
    key: Seq<char>,
    targetings: Seq<Seq<char>>,
)
    requires
        facts.len() > 0,
        each_once(targetings),
    ensures
        targetings_sum(facts, ads, product, key, targetings) == plus_if(
            targetings_sum(facts.drop_last(), ads, product, key, targetings),
            facts.last(),
            fact_in(ads, facts.last(), group_part(product, key)) && targetings.contains(
                ads[facts.last().ad].targeting,
            ),
        ),
    decreases targetings.len(),
{
    if targetings.len() > 0 {
        lemma_last_once(targetings, ads[facts.last().ad].targeting);
        lemma_targetings_add(facts, ads, product, key, targetings.drop_last());
    }
}

proof fn lemma_nothing_targeted(
    ads: Seq<AdV>,
    product: Seq<char>,
    key: Seq<char>,
    targetings: Seq<Seq<char>>,
)
    ensures
        targetings_sum(Seq::empty(), ads, product, key, targetings) == no_sum(),
    decreases targetings.len(),
{
    if targetings.len() > 0 {
        lemma_nothing_targeted(ads, product, key, targetings.drop_last());
    }
}

proof fn lemma_targeting_is_there(ads: Seq<AdV>, i: int)
    requires
        0 <= i < ads.len(),
    ensures
        member_targetings(members(ads, ads[i].product, ads[i].key)).contains(ads[i].targeting),
    decreases ads.len(),
{
    let now = members(ads, ads[i].product, ads[i].key);
    if i == ads.len() - 1 {
        assert(member_targetings(now)[now.len() - 1] == ads[i].targeting);
    } else {
        let rest = ads.drop_last();
        lemma_targeting_is_there(rest, i);
        let before = members(rest, ads[i].product, ads[i].key);
        let k = choose|k: int|
            0 <= k < before.len() && member_targetings(before)[k] == ads[i].targeting;
        assert(now[k] == before[k]);
        assert(member_targetings(now)[k] == ads[i].targeting);
    }
}

/// The targetings of a group delivered together just what the group delivered.
pub proof fn law_targetings_add_up(
    facts: Seq<FactV>,
    ads: Seq<AdV>,
    product: Seq<char>,
    key: Seq<char>,
)
    ensures
        targetings_sum(
            facts,
            ads,
            product,
            key,
            sorted_set(member_targetings(members(ads, product, key))),
        ) == sum_of(facts, ads, group_part(product, key)),
    decreases facts.len(),
{
    let names = member_targetings(members(ads, product, key));
    let targetings = sorted_set(names);
    if facts.len() == 0 {
        assert(facts =~= Seq::empty());
        lemma_nothing_targeted(ads, product, key, targetings);
    } else {
        law_targetings_add_up(facts.drop_last(), ads, product, key);
        lemma_set_is_once(names);
        lemma_targetings_add(facts, ads, product, key, targetings);
        if fact_in(ads, facts.last(), group_part(product, key)) {
            lemma_targeting_is_there(ads, facts.last().ad);
            law_sorted_set(names);
        }
    }
}

// Tickets

/// How many tickets the groups of a product and of keys brought.
pub open spec fn keys_leads(
    tickets: Seq<TicketV>,
    ads: Seq<AdV>,
    product: Seq<char>,
    keys: Seq<Seq<char>>,
) -> nat
    decreases keys.len(),
{
    if keys.len() == 0 {
        0
    } else {
        keys_leads(tickets, ads, product, keys.drop_last()) + came_of(
            tickets,
            ads,
            group_part(product, keys.last()),
        ).l_leads
    }
}

/// How many tickets the groups of products brought.
pub open spec fn products_leads(
    tickets: Seq<TicketV>,
    ads: Seq<AdV>,
    products: Seq<Seq<char>>,
) -> nat
    decreases products.len(),
{
    if products.len() == 0 {
        0
    } else {
        let p = products.last();
        products_leads(tickets, ads, products.drop_last()) + keys_leads(
            tickets,
            ads,
            p,
            sorted_set(keys_in(ads, p)),
        )
    }
}

pub open spec fn one_if(b: bool) -> nat {
    if b {
        1
    } else {
        0
    }
}

proof fn lemma_keys_lead(
    tickets: Seq<TicketV>,
    ads: Seq<AdV>,
    product: Seq<char>,
    keys: Seq<Seq<char>>,
)
    requires
        tickets.len() > 0,
        0 <= tickets.last().ad < ads.len(),
        each_once(keys),
    ensures
        keys_leads(tickets, ads, product, keys) == keys_leads(
            tickets.drop_last(),
            ads,
            product,
            keys,
        ) + one_if(
            ads[tickets.last().ad].product == product && keys.contains(ads[tickets.last().ad].key),
        ),
    decreases keys.len(),
{
    if keys.len() > 0 {
        lemma_last_once(keys, ads[tickets.last().ad].key);
        lemma_keys_lead(tickets, ads, product, keys.drop_last());
    }
}

proof fn lemma_products_lead(tickets: Seq<TicketV>, ads: Seq<AdV>, products: Seq<Seq<char>>)
    requires
        tickets.len() > 0,
        0 <= tickets.last().ad < ads.len(),
        each_once(products),
    ensures
        products_leads(tickets, ads, products) == products_leads(tickets.drop_last(), ads, products)
            + one_if(products.contains(ads[tickets.last().ad].product)),
    decreases products.len(),
{
    if products.len() > 0 {
        let a = ads[tickets.last().ad];
        let p = products.last();
        lemma_last_once(products, a.product);
        lemma_products_lead(tickets, ads, products.drop_last());
        let keys = keys_in(ads, p);
        lemma_set_is_once(keys);
        lemma_keys_lead(tickets, ads, p, sorted_set(keys));
        if a.product == p {
            lemma_key_is_there(ads, tickets.last().ad);
            law_sorted_set(keys);
        }
    }
}

proof fn lemma_no_leads(ads: Seq<AdV>, product: Seq<char>, keys: Seq<Seq<char>>)
    ensures
        keys_leads(Seq::empty(), ads, product, keys) == 0,
    decreases keys.len(),
{
    if keys.len() > 0 {
        lemma_no_leads(ads, product, keys.drop_last());
    }
}

proof fn lemma_no_leads_at_all(ads: Seq<AdV>, products: Seq<Seq<char>>)
    ensures
        products_leads(Seq::empty(), ads, products) == 0,
    decreases products.len(),
{
    if products.len() > 0 {
        lemma_no_leads_at_all(ads, products.drop_last());
        lemma_no_leads(ads, products.last(), sorted_set(keys_in(ads, products.last())));
    }
}

/// Every ticket that an ad brought is counted in just one group.
pub proof fn law_every_ticket_is_in_one_group(tickets: Seq<TicketV>, ads: Seq<AdV>)
    requires
        forall|i: int| 0 <= i < tickets.len() ==> 0 <= (#[trigger] tickets[i]).ad < ads.len(),
    ensures
        products_leads(tickets, ads, sorted_set(products_in(ads))) == tickets.len(),
    decreases tickets.len(),
{
    let products = sorted_set(products_in(ads));
    if tickets.len() == 0 {
        assert(tickets =~= Seq::empty());
        lemma_no_leads_at_all(ads, products);
    } else {
        let rest = tickets.drop_last();
        assert forall|i: int| 0 <= i < rest.len() implies 0 <= (#[trigger] rest[i]).ad
            < ads.len() by {
            assert(rest[i] == tickets[i]);
        }
        law_every_ticket_is_in_one_group(rest, ads);
        assert(tickets[tickets.len() - 1] == tickets.last());
        lemma_set_is_once(products_in(ads));
        lemma_products_lead(tickets, ads, products);
        lemma_key_is_there(ads, tickets.last().ad);
        law_sorted_set(products_in(ads));
    }
}

/// How many tickets the cards count.
pub open spec fn cards_leads(cards: Seq<CardV>) -> nat
    decreases cards.len(),
{
    if cards.len() == 0 {
        0
    } else {
        cards_leads(cards.drop_last()) + cards.last().funnel[3].1
    }
}

/// How many tickets the cards of sections count.
pub open spec fn sections_leads(sections: Seq<SectionV>) -> nat
    decreases sections.len(),
{
    if sections.len() == 0 {
        0
    } else {
        sections_leads(sections.drop_last()) + cards_leads(sections.last().creatives)
    }
}

proof fn lemma_cards_count(b: BookV, product: Seq<char>, keys: Seq<Seq<char>>)
    ensures
        cards_leads(cards_of(b, product, keys)) == keys_leads(b.tickets, b.ads, product, keys),
    decreases keys.len(),
{
    if keys.len() > 0 {
        lemma_cards_count(b, product, keys.drop_last());
        let before = cards_of(b, product, keys.drop_last());
        let c = card_of(b, product, keys.last());
        if is_shown(c) {
            assert(before.push(c).drop_last() =~= before);
        }
    }
}

proof fn lemma_sections_count(b: BookV, products: Seq<Seq<char>>)
    ensures
        sections_leads(sections_of(b, products)) == products_leads(b.tickets, b.ads, products),
    decreases products.len(),
{
    if products.len() > 0 {
        lemma_sections_count(b, products.drop_last());
        let before = sections_of(b, products.drop_last());
        let p = products.last();
        let keys = sorted_set(keys_in(b.ads, p));
        let cards = cards_of(b, p, keys);
        lemma_cards_count(b, p, keys);
        if cards.len() > 0 {
            let s = SectionV { product: p, creatives: cards };
            assert(before.push(s).drop_last() =~= before);
        }
    }
}

/// The tickets on the cards of a report and those that it counts as unattributed are together the
/// tickets of its days.
pub proof fn law_report_counts_every_ticket(
    s: SnapshotV,
    leads: Seq<LeadRowV>,
    contacts: Seq<ContactRowV>,
    workspace_id: Seq<char>,
    generated_at: Seq<char>,
    m: Seq<u64>,
    days: nat,
)
    requires
        window_of(s.date, days) is Some,
    ensures
        ({
            let r = report_of(s, leads, contacts, workspace_id, generated_at, m, days);
            sections_leads(r.products) + r.unattributed_l_leads == timely_count(
                tickets_in(s.crm),
                window_of(s.date, days)->0,
            )
        }),
{
    let w = window_of(s.date, days)->0;
    let b = book_of(s, leads, contacts, m, days);
    let tickets = tickets_in(s.crm);
    law_no_ticket_is_dropped(tickets, b.ads, w);
    law_tickets_have_their_ad(tickets, b.ads, w);
    law_every_ticket_is_in_one_group(b.tickets, b.ads);
    lemma_sections_count(b, sorted_set(products_in(b.ads)));
}

} // verus!
