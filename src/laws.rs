use crate::capabilities::{
    capabilities_of, contribution, military_discard_entry, military_discards, military_discards_of,
    negate_discard_entry, negate_discards, negate_discards_of, powers_total, tableau_total,
    Capabilities, Effect,
};
use crate::cards::{Attribute, Card, CardType, Good, Power};
use crate::player::{develop_result, lemma_type_positions, settle_result, Player, Step};
use vstd::prelude::*;

verus! {

/// Some power of some card of `s` adds to the running total `e`.
pub open spec fn grants(s: Seq<Card>, e: Effect) -> bool {
    exists|i: int, j: int|
        0 <= i < s.len() && 0 <= j < s[i].powers@.len() && contribution(s[i].powers@[j], e) != 0
}

proof fn lemma_total_remove(t: Seq<Card>, j: int, e: Effect)
    requires
        0 <= j < t.len(),
    ensures
        tableau_total(t, e) == tableau_total(t.remove(j), e) + powers_total(t[j].powers@, e),
    decreases t.len(),
{
    if j == t.len() - 1 {
        assert(t.remove(j) =~= t.drop_last());
    } else {
        assert(t.remove(j).drop_last() =~= t.drop_last().remove(j));
        assert(t.remove(j).last() == t.last());
        lemma_total_remove(t.drop_last(), j, e);
    }
}

proof fn lemma_total_permutation(s: Seq<Card>, t: Seq<Card>, e: Effect)
    requires
        s.to_multiset() =~= t.to_multiset(),
    ensures
        tableau_total(s, e) == tableau_total(t, e),
    decreases s.len(),
{
    broadcast use vstd::seq_lib::group_to_multiset_ensures;

    if s.len() == 0 {
        assert(t.len() == t.to_multiset().len());
        assert(s.len() == s.to_multiset().len());
    } else {
        let x = s.last();
        let s1 = s.drop_last();
        assert(s =~= s1.push(x));
        assert(s.to_multiset().count(x) > 0);
        assert(t.contains(x));
        let j = choose|j: int| 0 <= j < t.len() && t[j] == x;
        let t1 = t.remove(j);
        assert(t1.to_multiset() =~= s1.to_multiset());
        lemma_total_permutation(s1, t1, e);
        lemma_total_remove(t, j, e);
    }
}

proof fn lemma_total_without_grants(s: Seq<Card>, e: Effect)
    requires
        !grants(s, e),
    ensures
        tableau_total(s, e) == 0,
    decreases s.len(),
{
    if s.len() > 0 {
        let s1 = s.drop_last();
        assert(!grants(s1, e)) by {
            if grants(s1, e) {
                let (i, j) = choose|i: int, j: int|
                    0 <= i < s1.len() && 0 <= j < s1[i].powers@.len() && contribution(
                        s1[i].powers@[j],
                        e,
                    ) != 0;
                assert(s[i] == s1[i]);
            }
        }
        lemma_total_without_grants(s1, e);
        lemma_powers_without_grants(s, s.last().powers@, s.len() - 1, e);
    }
}

proof fn lemma_powers_without_grants(s: Seq<Card>, ps: Seq<Power>, i: int, e: Effect)
    requires
        !grants(s, e),
        0 <= i < s.len(),
        ps.len() <= s[i].powers@.len(),
        ps =~= s[i].powers@.take(ps.len() as int),
    ensures
        powers_total(ps, e) == 0,
    decreases ps.len(),
{
    if ps.len() > 0 {
        let k = ps.len() - 1;
        assert(contribution(s[i].powers@[k], e) == 0);
        lemma_powers_without_grants(s, ps.drop_last(), i, e);
    }
}

/// The military discard grants of the powers `ps` of card `c`, as (card,
/// bonus).
pub open spec fn military_grants_of(ps: Seq<Power>, c: Card) -> Seq<(Card, i32)>
    decreases ps.len(),
{
    if ps.len() == 0 {
        seq![]
    } else {
        military_grants_of(ps.drop_last(), c) + match ps.last() {
            Power::SettleDiscardForMilitary(n) => seq![(c, n)],
            _ => seq![],
        }
    }
}

/// The military discard grants of a tableau, as (card, bonus).
pub open spec fn military_grants(s: Seq<Card>) -> Seq<(Card, i32)>
    decreases s.len(),
{
    if s.len() == 0 {
        seq![]
    } else {
        military_grants(s.drop_last()) + military_grants_of(s.last().powers@, s.last())
    }
}

/// The trade negation grants of the powers `ps` of card `c`, as (card,
/// required good).
pub open spec fn negate_grants_of(ps: Seq<Power>, c: Card) -> Seq<(Card, Option<Good>)>
    decreases ps.len(),
{
    if ps.len() == 0 {
        seq![]
    } else {
        negate_grants_of(ps.drop_last(), c) + match ps.last() {
            Power::SettleDiscardToNegateTradeIfGood(g) => seq![(c, g)],
            _ => seq![],
        }
    }
}

/// The trade negation grants of a tableau, as (card, required good).
pub open spec fn negate_grants(s: Seq<Card>) -> Seq<(Card, Option<Good>)>
    decreases s.len(),
{
    if s.len() == 0 {
        seq![]
    } else {
        negate_grants(s.drop_last()) + negate_grants_of(s.last().powers@, s.last())
    }
}

/// The cards that the entries of a discard list name, with their values.
pub open spec fn named_military(s: Seq<Card>, l: Seq<(usize, i32)>) -> Seq<(Card, i32)> {
    Seq::new(l.len(), |k: int| (s[l[k].0 as int], l[k].1))
}

pub open spec fn named_negate(s: Seq<Card>, l: Seq<(usize, Option<Good>)>) -> Seq<
    (Card, Option<Good>),
> {
    Seq::new(l.len(), |k: int| (s[l[k].0 as int], l[k].1))
}

proof fn lemma_military_of_named(s: Seq<Card>, ps: Seq<Power>, pos: usize)
    requires
        pos < s.len(),
    ensures
        named_military(s, military_discards_of(ps, pos)) =~= military_grants_of(ps, s[pos as int]),
        forall|k: int|
            0 <= k < military_discards_of(ps, pos).len() ==> #[trigger] military_discards_of(
                ps,
                pos,
            )[k].0 == pos,
    decreases ps.len(),
{
    if ps.len() > 0 {
        lemma_military_of_named(s, ps.drop_last(), pos);
        let a = military_discards_of(ps.drop_last(), pos);
        let e = military_discard_entry(ps.last(), pos);
        assert(military_discards_of(ps, pos) == a + e);
        assert forall|k: int| 0 <= k < (a + e).len() implies #[trigger] (a + e)[k].0 == pos by {
            if k >= a.len() {
                assert((a + e)[k] == e[k - a.len()]);
            }
        }
    }
}

proof fn lemma_negate_of_named(s: Seq<Card>, ps: Seq<Power>, pos: usize)
    requires
        pos < s.len(),
    ensures
        named_negate(s, negate_discards_of(ps, pos)) =~= negate_grants_of(ps, s[pos as int]),
        forall|k: int|
            0 <= k < negate_discards_of(ps, pos).len() ==> #[trigger] negate_discards_of(
                ps,
                pos,
            )[k].0 == pos,
    decreases ps.len(),
{
    if ps.len() > 0 {
        lemma_negate_of_named(s, ps.drop_last(), pos);
        let a = negate_discards_of(ps.drop_last(), pos);
        let e = negate_discard_entry(ps.last(), pos);
        assert(negate_discards_of(ps, pos) == a + e);
        assert forall|k: int| 0 <= k < (a + e).len() implies #[trigger] (a + e)[k].0 == pos by {
            if k >= a.len() {
                assert((a + e)[k] == e[k - a.len()]);
            }
        }
    }
}

/// A discard list names the cards its grants come from.
proof fn lemma_named_grants(s: Seq<Card>)
    requires
        s.len() <= usize::MAX,
    ensures
        named_military(s, military_discards(s)) =~= military_grants(s),
        named_negate(s, negate_discards(s)) =~= negate_grants(s),
        forall|k: int|
            0 <= k < military_discards(s).len() ==> #[trigger] military_discards(s)[k].0 < s.len(),
        forall|k: int|
            0 <= k < negate_discards(s).len() ==> #[trigger] negate_discards(s)[k].0 < s.len(),
    decreases s.len(),
{
    if s.len() > 0 {
        let s1 = s.drop_last();
        let pos = (s.len() - 1) as usize;
        lemma_named_grants(s1);
        lemma_military_of_named(s, s.last().powers@, pos);
        lemma_negate_of_named(s, s.last().powers@, pos);
        let a = military_discards(s1);
        let b = military_discards_of(s.last().powers@, pos);
        assert(military_discards(s) == a + b);
        assert forall|k: int| 0 <= k < (a + b).len() implies #[trigger] (a + b)[k].0 < s.len() by {
            if k >= a.len() {
                assert((a + b)[k] == b[k - a.len()]);
            } else {
                assert((a + b)[k] == a[k]);
            }
        }
        assert(named_military(s, a + b) =~= named_military(s1, a) + named_military(s, b)) by {
            assert forall|k: int| 0 <= k < a.len() implies #[trigger] s[a[k].0 as int] == s1[a[k].0 as int] by {
                assert(a[k].0 < s1.len());
            }
        }
        let c = negate_discards(s1);
        let d = negate_discards_of(s.last().powers@, pos);
        assert(negate_discards(s) == c + d);
        assert forall|k: int| 0 <= k < (c + d).len() implies #[trigger] (c + d)[k].0 < s.len() by {
            if k >= c.len() {
                assert((c + d)[k] == d[k - c.len()]);
            } else {
                assert((c + d)[k] == c[k]);
            }
        }
        assert(named_negate(s, c + d) =~= named_negate(s1, c) + named_negate(s, d)) by {
            assert forall|k: int| 0 <= k < c.len() implies #[trigger] s[c[k].0 as int] == s1[c[k].0 as int] by {
                assert(c[k].0 < s1.len());
            }
        }
        assert(s[pos as int] == s.last());
    }
}

proof fn lemma_grants_remove(t: Seq<Card>, j: int)
    requires
        0 <= j < t.len(),
    ensures
        military_grants(t).to_multiset() =~= military_grants(t.remove(j)).to_multiset().add(
            military_grants_of(t[j].powers@, t[j]).to_multiset(),
        ),
        negate_grants(t).to_multiset() =~= negate_grants(t.remove(j)).to_multiset().add(
            negate_grants_of(t[j].powers@, t[j]).to_multiset(),
        ),
    decreases t.len(),
{
    broadcast use vstd::seq_lib::lemma_multiset_commutative;

    if j == t.len() - 1 {
        assert(t.remove(j) =~= t.drop_last());
    } else {
        assert(t.remove(j).drop_last() =~= t.drop_last().remove(j));
        assert(t.remove(j).last() == t.last());
        lemma_grants_remove(t.drop_last(), j);
    }
}

proof fn lemma_grants_permutation(s: Seq<Card>, t: Seq<Card>)
    requires
        s.to_multiset() =~= t.to_multiset(),
    ensures
        military_grants(s).to_multiset() =~= military_grants(t).to_multiset(),
        negate_grants(s).to_multiset() =~= negate_grants(t).to_multiset(),
    decreases s.len(),
{
    broadcast use vstd::seq_lib::group_to_multiset_ensures;
    broadcast use vstd::seq_lib::lemma_multiset_commutative;

    if s.len() == 0 {
        assert(t.len() == t.to_multiset().len());
        assert(t =~= Seq::<Card>::empty());
    } else {
        let x = s.last();
        let s1 = s.drop_last();
        assert(s =~= s1.push(x));
        assert(s.to_multiset().count(x) > 0);
        assert(t.contains(x));
        let j = choose|j: int| 0 <= j < t.len() && t[j] == x;
        let t1 = t.remove(j);
        assert(t1.to_multiset() =~= s1.to_multiset());
        lemma_grants_permutation(s1, t1);
        lemma_grants_remove(t, j);
    }
}

/// Capabilities do not depend on the order of the tableau: two tableaus
/// holding the same cards give the same explore, develop and settle
/// numbers, the same per-good and per-attribute bonuses and the same
/// conversion flag, and their lists of discardable cards name the same cards
/// with the same values, each as often: only the positions and the order in
/// which the lists give them follow the tableau order.
pub proof fn lemma_aggregate_order_independent(s: Seq<Card>, t: Seq<Card>, hand_size: int)
    requires
        s.to_multiset() =~= t.to_multiset(),
        s.len() <= usize::MAX,
    ensures
        ({
            let a = capabilities_of(s, hand_size);
            let b = capabilities_of(t, hand_size);
            &&& a.explore_to_see == b.explore_to_see
            &&& a.explore_to_keep == b.explore_to_keep
            &&& a.develop_trade_power == b.develop_trade_power
            &&& a.develop_trade_discount == b.develop_trade_discount
            &&& a.develop_draw_before == b.develop_draw_before
            &&& a.settle_trade_power == b.settle_trade_power
            &&& a.settle_trade_discount == b.settle_trade_discount
            &&& a.settle_military_power == b.settle_military_power
            &&& a.settle_good_discounts == b.settle_good_discounts
            &&& a.settle_good_military == b.settle_good_military
            &&& a.settle_attr_military == b.settle_attr_military
            &&& a.settle_can_convert_military_to_trade == b.settle_can_convert_military_to_trade
            &&& a.settle_conversion_discount == b.settle_conversion_discount
            &&& named_military(s, a.settle_discard_military).to_multiset() == named_military(
                t,
                b.settle_discard_military,
            ).to_multiset()
            &&& named_negate(s, a.settle_discard_to_negate_trade_if_good).to_multiset()
                == named_negate(t, b.settle_discard_to_negate_trade_if_good).to_multiset()
        }),
{
    let a = capabilities_of(s, hand_size);
    let b = capabilities_of(t, hand_size);
    lemma_total_permutation(s, t, Effect::ExploreSee);
    lemma_total_permutation(s, t, Effect::ExploreKeep);
    lemma_total_permutation(s, t, Effect::DevelopDiscount);
    lemma_total_permutation(s, t, Effect::DevelopDraw);
    lemma_total_permutation(s, t, Effect::SettleTradeDiscount);
    lemma_total_permutation(s, t, Effect::SettleMilitary);
    lemma_total_permutation(s, t, Effect::Conversion);
    lemma_total_permutation(s, t, Effect::ConversionDiscount);
    assert forall|g: Option<Good>| #[trigger] a.settle_good_discounts[g] == b.settle_good_discounts[g] by {
        lemma_total_permutation(s, t, Effect::GoodDiscount(g));
    }
    assert forall|g: Option<Good>| #[trigger] a.settle_good_military[g] == b.settle_good_military[g] by {
        lemma_total_permutation(s, t, Effect::GoodMilitary(g));
    }
    assert forall|x: Attribute| #[trigger] a.settle_attr_military[x] == b.settle_attr_military[x] by {
        lemma_total_permutation(s, t, Effect::AttributeMilitary(x));
    }
    assert(a.settle_good_discounts =~= b.settle_good_discounts);
    assert(a.settle_good_military =~= b.settle_good_military);
    assert(a.settle_attr_military =~= b.settle_attr_military);
    broadcast use vstd::seq_lib::group_to_multiset_ensures;

    assert(t.len() == t.to_multiset().len());
    assert(s.len() == s.to_multiset().len());
    lemma_named_grants(s);
    lemma_named_grants(t);
    lemma_grants_permutation(s, t);
}

/// The per-good and per-attribute tables hold an entry for every good, for
/// "no good" and for every attribute, and an entry is zero when no power of
/// the tableau adds to it.
pub proof fn lemma_every_key_present(s: Seq<Card>, hand_size: int)
    ensures
        ({
            let m = capabilities_of(s, hand_size);
            &&& forall|g: Option<Good>| #[trigger] m.settle_good_discounts.contains_key(g)
            &&& forall|g: Option<Good>| #[trigger] m.settle_good_military.contains_key(g)
            &&& forall|a: Attribute| #[trigger] m.settle_attr_military.contains_key(a)
            &&& forall|g: Option<Good>|
                !grants(s, Effect::GoodDiscount(g)) ==> #[trigger] m.settle_good_discounts[g] == 0
            &&& forall|g: Option<Good>|
                !grants(s, Effect::GoodMilitary(g)) ==> #[trigger] m.settle_good_military[g] == 0
            &&& forall|a: Attribute|
                !grants(s, Effect::AttributeMilitary(a)) ==> #[trigger] m.settle_attr_military[a] == 0
        }),
{
    let m = capabilities_of(s, hand_size);
    assert forall|g: Option<Good>|
        !grants(s, Effect::GoodDiscount(g)) implies #[trigger] m.settle_good_discounts[g] == 0 by {
        lemma_total_without_grants(s, Effect::GoodDiscount(g));
    }
    assert forall|g: Option<Good>|
        !grants(s, Effect::GoodMilitary(g)) implies #[trigger] m.settle_good_military[g] == 0 by {
        lemma_total_without_grants(s, Effect::GoodMilitary(g));
    }
    assert forall|a: Attribute|
        !grants(s, Effect::AttributeMilitary(a)) implies #[trigger] m.settle_attr_military[a] == 0 by {
        lemma_total_without_grants(s, Effect::AttributeMilitary(a));
    }
}

/// Aggregating one unchanged tableau twice gives equal capabilities: the
/// result is a function of the tableau and the hand size alone.
pub proof fn lemma_aggregate_deterministic(
    tableau: Seq<Card>,
    hand_size: int,
    first: crate::capabilities::CapabilitiesModel,
    second: crate::capabilities::CapabilitiesModel,
)
    requires
        first == capabilities_of(tableau, hand_size),
        second == capabilities_of(tableau, hand_size),
    ensures
        first == second,
{
}

/// A development that passed the affordability check can always be paid
/// for: the price asked never exceeds the cards left in hand.
pub proof fn lemma_develop_payment_fits(
    p0: Player,
    p1: Player,
    trade_power: i64,
    discount: i64,
    choice: Option<usize>,
    r: Step,
)
    requires
        p0.step_fits(Step::Develop { trade_power, discount }),
        p0.hand@.len() <= usize::MAX,
        develop_result(p0, p1, trade_power, discount, choice, r),
    ensures
        r matches Step::Pay { price } ==> price <= p1.hand@.len(),
{
    lemma_type_positions(p0.hand@, CardType::Development);
}

/// A world that passed the affordability check can always be paid for: the
/// price asked never exceeds the cards left in hand.
pub proof fn lemma_settle_payment_fits(
    p0: Player,
    p1: Player,
    capabilities: Capabilities,
    choice: Option<usize>,
    r: Step,
)
    requires
        p0.step_fits(Step::Settle { capabilities }),
        p0.hand@.len() <= usize::MAX,
        settle_result(p0, p1, capabilities, choice, r),
    ensures
        r matches Step::Pay { price } ==> price <= p1.hand@.len(),
{
    lemma_type_positions(p0.hand@, CardType::World);
}

} // verus!
