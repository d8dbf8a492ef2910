use crate::cards::{Attribute, Card, Good, Power};
use vstd::prelude::*;

verus! {

/// The largest total power weight (see `tableau_weight`) for which the
/// capabilities of a tableau are computed: every running sum then fits in
/// an `i64`.
pub const WEIGHT_LIMIT: u64 = 0x2000_0000_0000_0000;

/// A running total of the capabilities that powers add to.
pub enum Effect {
    ExploreSee,
    ExploreKeep,
    DevelopDiscount,
    DevelopDraw,
    SettleTradeDiscount,
    SettleMilitary,
    GoodDiscount(Option<Good>),
    GoodMilitary(Option<Good>),
    AttributeMilitary(Attribute),
    /// The number of powers that let military pay for trade.
    Conversion,
    ConversionDiscount,
}

/// What one power adds to one running total.
pub open spec fn contribution(p: Power, e: Effect) -> int {
    match (p, e) {
        (Power::ExploreSeeBonus(n), Effect::ExploreSee) => n as int,
        (Power::ExploreKeepBonus(n), Effect::ExploreKeep) => n as int,
        (Power::DevelopDiscount(n), Effect::DevelopDiscount) => n as int,
        (Power::DevelopDraw(n), Effect::DevelopDraw) => n as int,
        (Power::SettleTradeDiscount(n), Effect::SettleTradeDiscount) => n as int,
        (Power::SettleMilitaryBonus(n), Effect::SettleMilitary) => n as int,
        (Power::SettleDiscountIfGood(n, g), Effect::GoodDiscount(k)) => if g == k {
            n as int
        } else {
            0
        },
        (Power::SettleMilitaryIfGood(n, g), Effect::GoodMilitary(k)) => if g == k {
            n as int
        } else {
            0
        },
        (Power::SettleMilitaryIfAttribute(n, a), Effect::AttributeMilitary(k)) => if a == k {
            n as int
        } else {
            0
        },
        (Power::SettleMilitaryAsTradeWithDiscount(_), Effect::Conversion) => 1,
        (Power::SettleMilitaryAsTradeWithDiscount(n), Effect::ConversionDiscount) => n as int,
        _ => 0,
    }
}

/// The sum of the contributions of a list of powers to one running total.
pub open spec fn powers_total(ps: Seq<Power>, e: Effect) -> int
    decreases ps.len(),
{
    if ps.len() == 0 {
        0
    } else {
        powers_total(ps.drop_last(), e) + contribution(ps.last(), e)
    }
}

/// The sum of the contributions of every power of every card of a tableau
/// to one running total.
pub open spec fn tableau_total(s: Seq<Card>, e: Effect) -> int
    decreases s.len(),
{
    if s.len() == 0 {
        0
    } else {
        tableau_total(s.drop_last(), e) + powers_total(s.last().powers@, e)
    }
}

/// One more than the absolute value of `n`.
pub open spec fn amount_weight(n: i32) -> int {
    if n < 0 {
        1 - n
    } else {
        n + 1
    }
}

/// A bound on what one power can add to any running total.
pub open spec fn power_weight(p: Power) -> int {
    match p {
        Power::ExploreSeeBonus(n) => amount_weight(n),
        Power::ExploreKeepBonus(n) => amount_weight(n),
        Power::DevelopDiscount(n) => amount_weight(n),
        Power::DevelopDraw(n) => amount_weight(n),
        Power::SettleMilitaryBonus(n) => amount_weight(n),
        Power::SettleTradeDiscount(n) => amount_weight(n),
        Power::SettleDiscountIfGood(n, _) => amount_weight(n),
        Power::SettleMilitaryIfGood(n, _) => amount_weight(n),
        Power::SettleMilitaryIfAttribute(n, _) => amount_weight(n),
        Power::SettleMilitaryAsTradeWithDiscount(n) => amount_weight(n),
        Power::SettleDiscardForMilitary(n) => amount_weight(n),
        Power::SettleDiscardToNegateTradeIfGood(_) => 1,
    }
}

pub open spec fn powers_weight(ps: Seq<Power>) -> int
    decreases ps.len(),
{
    if ps.len() == 0 {
        0
    } else {
        powers_weight(ps.drop_last()) + power_weight(ps.last())
    }
}

/// The sum of the weights of every power of every card of a tableau.
pub open spec fn tableau_weight(s: Seq<Card>) -> int
    decreases s.len(),
{
    if s.len() == 0 {
        0
    } else {
        tableau_weight(s.drop_last()) + powers_weight(s.last().powers@)
    }
}

/// The entry that a power adds to the list of cards that may be discarded
/// for military strength, for the card at tableau position `pos`.
pub open spec fn military_discard_entry(p: Power, pos: usize) -> Seq<(usize, i32)> {
    match p {
        Power::SettleDiscardForMilitary(n) => seq![(pos, n)],
        _ => seq![],
    }
}

/// The entry that a power adds to the list of cards that may be discarded
/// to negate a trade cost, for the card at tableau position `pos`.
pub open spec fn negate_discard_entry(p: Power, pos: usize) -> Seq<(usize, Option<Good>)> {
    match p {
        Power::SettleDiscardToNegateTradeIfGood(g) => seq![(pos, g)],
        _ => seq![],
    }
}

pub open spec fn military_discards_of(ps: Seq<Power>, pos: usize) -> Seq<(usize, i32)>
    decreases ps.len(),
{
    if ps.len() == 0 {
        seq![]
    } else {
        military_discards_of(ps.drop_last(), pos) + military_discard_entry(ps.last(), pos)
    }
}

pub open spec fn negate_discards_of(ps: Seq<Power>, pos: usize) -> Seq<(usize, Option<Good>)>
    decreases ps.len(),
{
    if ps.len() == 0 {
        seq![]
    } else {
        negate_discards_of(ps.drop_last(), pos) + negate_discard_entry(ps.last(), pos)
    }
}

/// The cards of a tableau that may be discarded for military strength, as
/// (tableau position, bonus), in tableau and power order.
pub open spec fn military_discards(s: Seq<Card>) -> Seq<(usize, i32)>
    decreases s.len(),
{
    if s.len() == 0 {
        seq![]
    } else {
        military_discards(s.drop_last()) + military_discards_of(
            s.last().powers@,
            (s.len() - 1) as usize,
        )
    }
}

/// The cards of a tableau that may be discarded to negate a trade cost, as
/// (tableau position, required good), in tableau and power order.
pub open spec fn negate_discards(s: Seq<Card>) -> Seq<(usize, Option<Good>)>
    decreases s.len(),
{
    if s.len() == 0 {
        seq![]
    } else {
        negate_discards(s.drop_last()) + negate_discards_of(
            s.last().powers@,
            (s.len() - 1) as usize,
        )
    }
}

/// The resolved capabilities, as mathematical values.
#[verifier::ext_equal]
pub struct CapabilitiesModel {
    pub explore_to_see: int,
    pub explore_to_keep: int,
    pub develop_trade_power: int,
    pub develop_trade_discount: int,
    pub develop_draw_before: int,
    pub settle_trade_power: int,
    pub settle_trade_discount: int,
    pub settle_military_power: int,
    pub settle_good_discounts: Map<Option<Good>, int>,
    pub settle_good_military: Map<Option<Good>, int>,
    pub settle_attr_military: Map<Attribute, int>,
    pub settle_can_convert_military_to_trade: bool,
    pub settle_conversion_discount: int,
    pub settle_discard_military: Seq<(usize, i32)>,
    pub settle_discard_to_negate_trade_if_good: Seq<(usize, Option<Good>)>,
}

/// The capabilities that a tableau gives a player holding `hand_size` cards:
/// the baselines plus what every power of every card adds.
pub open spec fn capabilities_of(s: Seq<Card>, hand_size: int) -> CapabilitiesModel {
    CapabilitiesModel {
        explore_to_see: 2 + tableau_total(s, Effect::ExploreSee),
        explore_to_keep: 1 + tableau_total(s, Effect::ExploreKeep),
        develop_trade_power: hand_size - 1 + tableau_total(s, Effect::DevelopDiscount),
        develop_trade_discount: tableau_total(s, Effect::DevelopDiscount),
        develop_draw_before: tableau_total(s, Effect::DevelopDraw),
        settle_trade_power: hand_size - 1 + tableau_total(s, Effect::SettleTradeDiscount),
        settle_trade_discount: tableau_total(s, Effect::SettleTradeDiscount),
        settle_military_power: tableau_total(s, Effect::SettleMilitary),
        settle_good_discounts: Map::new(
            |g: Option<Good>| true,
            |g: Option<Good>| tableau_total(s, Effect::GoodDiscount(g)),
        ),
        settle_good_military: Map::new(
            |g: Option<Good>| true,
            |g: Option<Good>| tableau_total(s, Effect::GoodMilitary(g)),
        ),
        settle_attr_military: Map::new(
            |a: Attribute| true,
            |a: Attribute| tableau_total(s, Effect::AttributeMilitary(a)),
        ),
        settle_can_convert_military_to_trade: tableau_total(s, Effect::Conversion) > 0,
        settle_conversion_discount: tableau_total(s, Effect::ConversionDiscount),
        settle_discard_military: military_discards(s),
        settle_discard_to_negate_trade_if_good: negate_discards(s),
    }
}

/// A number for each good, and one for "no good".
#[derive(Debug)]
pub struct GoodTable {
    pub none: i64,
    pub novelty: i64,
    pub rare_elements: i64,
    pub genes: i64,
    pub alien_technology: i64,
}

impl GoodTable {
    pub open spec fn spec_get(&self, g: Option<Good>) -> int {
        match g {
            None => self.none as int,
            Some(Good::Novelty) => self.novelty as int,
            Some(Good::RareElements) => self.rare_elements as int,
            Some(Good::Genes) => self.genes as int,
            Some(Good::AlienTechnology) => self.alien_technology as int,
        }
    }

    pub fn zero() -> (r: GoodTable)
        ensures
            forall|g: Option<Good>| r.spec_get(g) == 0,
    {
        GoodTable { none: 0, novelty: 0, rare_elements: 0, genes: 0, alien_technology: 0 }
    }

    pub fn get(&self, g: Option<Good>) -> (r: i64)
        ensures
            r as int == self.spec_get(g),
    {
        match g {
            None => self.none,
            Some(Good::Novelty) => self.novelty,
            Some(Good::RareElements) => self.rare_elements,
            Some(Good::Genes) => self.genes,
            Some(Good::AlienTechnology) => self.alien_technology,
        }
    }

    fn add(&mut self, g: Option<Good>, n: i64)
        requires
            i64::MIN <= old(self).spec_get(g) + n <= i64::MAX,
        ensures
            forall|k: Option<Good>|
                #[trigger] final(self).spec_get(k) == old(self).spec_get(k) + if k == g {
                    n as int
                } else {
                    0
                },
    {
        match g {
            None => self.none = self.none + n,
            Some(Good::Novelty) => self.novelty = self.novelty + n,
            Some(Good::RareElements) => self.rare_elements = self.rare_elements + n,
            Some(Good::Genes) => self.genes = self.genes + n,
            Some(Good::AlienTechnology) => self.alien_technology = self.alien_technology + n,
        }
    }
}

impl View for GoodTable {
    type V = Map<Option<Good>, int>;

    open spec fn view(&self) -> Map<Option<Good>, int> {
        Map::new(|g: Option<Good>| true, |g: Option<Good>| self.spec_get(g))
    }
}

/// A number for each attribute.
#[derive(Debug)]
pub struct AttributeTable {
    pub alien: i64,
    pub imperium: i64,
    pub rebel: i64,
    pub starter: i64,
    pub uplift: i64,
}

impl AttributeTable {
    pub open spec fn spec_get(&self, a: Attribute) -> int {
        match a {
            Attribute::Alien => self.alien as int,
            Attribute::Imperium => self.imperium as int,
            Attribute::Rebel => self.rebel as int,
            Attribute::Starter => self.starter as int,
            Attribute::Uplift => self.uplift as int,
        }
    }

    pub fn zero() -> (r: AttributeTable)
        ensures
            forall|a: Attribute| r.spec_get(a) == 0,
    {
        AttributeTable { alien: 0, imperium: 0, rebel: 0, starter: 0, uplift: 0 }
    }

    pub fn get(&self, a: Attribute) -> (r: i64)
        ensures
            r as int == self.spec_get(a),
    {
        match a {
            Attribute::Alien => self.alien,
            Attribute::Imperium => self.imperium,
            Attribute::Rebel => self.rebel,
            Attribute::Starter => self.starter,
            Attribute::Uplift => self.uplift,
        }
    }

    fn add(&mut self, a: Attribute, n: i64)
        requires
            i64::MIN <= old(self).spec_get(a) + n <= i64::MAX,
        ensures
            forall|k: Attribute|
                #[trigger] final(self).spec_get(k) == old(self).spec_get(k) + if k == a {
                    n as int
                } else {
                    0
                },
    {
        match a {
            Attribute::Alien => self.alien = self.alien + n,
            Attribute::Imperium => self.imperium = self.imperium + n,
            Attribute::Rebel => self.rebel = self.rebel + n,
            Attribute::Starter => self.starter = self.starter + n,
            Attribute::Uplift => self.uplift = self.uplift + n,
        }
    }
}

impl View for AttributeTable {
    type V = Map<Attribute, int>;

    open spec fn view(&self) -> Map<Attribute, int> {
        Map::new(|a: Attribute| true, |a: Attribute| self.spec_get(a))
    }
}

/// The capabilities of a player, resolved from the powers of the cards in
/// the player's tableau. They are recomputed before each phase action.
#[derive(Debug)]
pub struct Capabilities {
    pub explore_to_see: i64,
    pub explore_to_keep: i64,
    pub develop_trade_power: i64,
    pub develop_trade_discount: i64,
    pub develop_draw_before: i64,
    pub settle_trade_power: i64,
    pub settle_trade_discount: i64,
    pub settle_military_power: i64,
    pub settle_good_discounts: GoodTable,
    pub settle_good_military: GoodTable,
    pub settle_attr_military: AttributeTable,
    pub settle_can_convert_military_to_trade: bool,
    pub settle_conversion_discount: i64,
    /// (tableau position of the card, military bonus)
    pub settle_discard_military: Vec<(usize, i32)>,
    /// (tableau position of the card, good the negated card must produce)
    pub settle_discard_to_negate_trade_if_good: Vec<(usize, Option<Good>)>,
}

impl View for Capabilities {
    type V = CapabilitiesModel;

    open spec fn view(&self) -> CapabilitiesModel {
        CapabilitiesModel {
            explore_to_see: self.explore_to_see as int,
            explore_to_keep: self.explore_to_keep as int,
            develop_trade_power: self.develop_trade_power as int,
            develop_trade_discount: self.develop_trade_discount as int,
            develop_draw_before: self.develop_draw_before as int,
            settle_trade_power: self.settle_trade_power as int,
            settle_trade_discount: self.settle_trade_discount as int,
            settle_military_power: self.settle_military_power as int,
            settle_good_discounts: self.settle_good_discounts@,
            settle_good_military: self.settle_good_military@,
            settle_attr_military: self.settle_attr_military@,
            settle_can_convert_military_to_trade: self.settle_can_convert_military_to_trade,
            settle_conversion_discount: self.settle_conversion_discount as int,
            settle_discard_military: self.settle_discard_military@,
            settle_discard_to_negate_trade_if_good: self.settle_discard_to_negate_trade_if_good@,
        }
    }
}

/// The running total `e` over the first `i` cards of `s` and the first `j`
/// powers of card `i`.
spec fn prefix_total(s: Seq<Card>, i: int, j: int, e: Effect) -> int {
    tableau_total(s.take(i), e) + powers_total(card_powers(s, i).take(j), e)
}

/// The powers of card `i` of `s`, none past the end.
spec fn card_powers(s: Seq<Card>, i: int) -> Seq<Power> {
    if 0 <= i < s.len() {
        s[i].powers@
    } else {
        Seq::empty()
    }
}

spec fn prefix_military(s: Seq<Card>, i: int, j: int) -> Seq<(usize, i32)> {
    military_discards(s.take(i)) + military_discards_of(card_powers(s, i).take(j), i as usize)
}

spec fn prefix_negate(s: Seq<Card>, i: int, j: int) -> Seq<(usize, Option<Good>)> {
    negate_discards(s.take(i)) + negate_discards_of(card_powers(s, i).take(j), i as usize)
}

proof fn lemma_powers_bounded(ps: Seq<Power>, e: Effect)
    ensures
        -powers_weight(ps) <= powers_total(ps, e) <= powers_weight(ps),
        e is Conversion ==> powers_total(ps, e) >= 0,
    decreases ps.len(),
{
    if ps.len() > 0 {
        lemma_powers_bounded(ps.drop_last(), e);
    }
}

pub(crate) proof fn lemma_tableau_bounded(s: Seq<Card>, e: Effect)
    ensures
        -tableau_weight(s) <= tableau_total(s, e) <= tableau_weight(s),
        e is Conversion ==> tableau_total(s, e) >= 0,
    decreases s.len(),
{
    if s.len() > 0 {
        lemma_tableau_bounded(s.drop_last(), e);
        lemma_powers_bounded(s.last().powers@, e);
    }
}

pub(crate) proof fn lemma_powers_weight_prefix(ps: Seq<Power>, k: int)
    requires
        0 <= k <= ps.len(),
    ensures
        powers_weight(ps.take(k)) <= powers_weight(ps),
    decreases ps.len(),
{
    if k < ps.len() {
        assert(ps.take(k) =~= ps.drop_last().take(k));
        lemma_powers_weight_prefix(ps.drop_last(), k);
    } else {
        assert(ps.take(k) =~= ps);
    }
}

pub(crate) proof fn lemma_tableau_weight_prefix(s: Seq<Card>, k: int)
    requires
        0 <= k <= s.len(),
    ensures
        tableau_weight(s.take(k)) <= tableau_weight(s),
    decreases s.len(),
{
    if k < s.len() {
        assert(s.take(k) =~= s.drop_last().take(k));
        lemma_tableau_weight_prefix(s.drop_last(), k);
        lemma_powers_bounded(s.last().powers@, Effect::Conversion);
    } else {
        assert(s.take(k) =~= s);
    }
}

/// Taking one more power of card `i` adds that power's contribution and its
/// list entries, and keeps every running total within the tableau's weight.
proof fn lemma_prefix_step(s: Seq<Card>, i: int, j: int)
    requires
        0 <= i < s.len(),
        0 <= j < s[i].powers@.len(),
    ensures
        forall|e: Effect|
            #[trigger] prefix_total(s, i, j + 1, e) == prefix_total(s, i, j, e) + contribution(
                s[i].powers@[j],
                e,
            ),
        forall|e: Effect|
            -tableau_weight(s) <= #[trigger] prefix_total(s, i, j + 1, e) <= tableau_weight(s),
        forall|e: Effect| e is Conversion ==> #[trigger] prefix_total(s, i, j, e) >= 0,
        prefix_military(s, i, j + 1) == prefix_military(s, i, j) + military_discard_entry(
            s[i].powers@[j],
            i as usize,
        ),
        prefix_negate(s, i, j + 1) == prefix_negate(s, i, j) + negate_discard_entry(
            s[i].powers@[j],
            i as usize,
        ),
{
    let ps = s[i].powers@;
    assert(ps.take(j + 1).drop_last() =~= ps.take(j));
    assert(s.take(i + 1).drop_last() =~= s.take(i));
    lemma_powers_weight_prefix(ps, j + 1);
    lemma_tableau_weight_prefix(s, i + 1);
    assert(prefix_military(s, i, j + 1) =~= prefix_military(s, i, j) + military_discard_entry(
        ps[j],
        i as usize,
    ));
    assert(prefix_negate(s, i, j + 1) =~= prefix_negate(s, i, j) + negate_discard_entry(
        ps[j],
        i as usize,
    ));
    assert forall|e: Effect|
        -tableau_weight(s) <= #[trigger] prefix_total(s, i, j + 1, e) <= tableau_weight(s) by {
        lemma_tableau_bounded(s.take(i), e);
        lemma_powers_bounded(ps.take(j + 1), e);
    }
    assert forall|e: Effect| e is Conversion implies #[trigger] prefix_total(s, i, j, e) >= 0 by {
        lemma_tableau_bounded(s.take(i), e);
        lemma_powers_bounded(ps.take(j), e);
    }
}

/// Having taken every power of card `i` is having taken the first `i + 1`
/// cards.
proof fn lemma_prefix_next_card(s: Seq<Card>, i: int)
    requires
        0 <= i < s.len(),
    ensures
        forall|e: Effect|
            #[trigger] prefix_total(s, i, s[i].powers@.len() as int, e) == prefix_total(
                s,
                i + 1,
                0,
                e,
            ),
        prefix_military(s, i, s[i].powers@.len() as int) == prefix_military(s, i + 1, 0),
        prefix_negate(s, i, s[i].powers@.len() as int) == prefix_negate(s, i + 1, 0),
{
    let ps = s[i].powers@;
    assert(ps.take(ps.len() as int) =~= ps);
    assert(s.take(i + 1).drop_last() =~= s.take(i));
    assert(card_powers(s, i + 1).take(0) =~= Seq::<Power>::empty());
    assert(prefix_military(s, i, ps.len() as int) =~= prefix_military(s, i + 1, 0));
    assert(prefix_negate(s, i, ps.len() as int) =~= prefix_negate(s, i + 1, 0));
}

impl Capabilities {
    /// The running total `e` as these capabilities hold it.
    pub open spec fn total_held(&self, e: Effect) -> int {
        match e {
            Effect::ExploreSee => self.explore_to_see - 2,
            Effect::ExploreKeep => self.explore_to_keep - 1,
            Effect::DevelopDiscount => self.develop_trade_discount as int,
            Effect::DevelopDraw => self.develop_draw_before as int,
            Effect::SettleTradeDiscount => self.settle_trade_discount as int,
            Effect::SettleMilitary => self.settle_military_power as int,
            Effect::GoodDiscount(g) => self.settle_good_discounts.spec_get(g),
            Effect::GoodMilitary(g) => self.settle_good_military.spec_get(g),
            Effect::AttributeMilitary(a) => self.settle_attr_military.spec_get(a),
            Effect::Conversion => if self.settle_can_convert_military_to_trade {
                1
            } else {
                0
            },
            Effect::ConversionDiscount => self.settle_conversion_discount as int,
        }
    }

    /// These capabilities are those of the first `i` cards of `s` and the
    /// first `j` powers of card `i`, for a hand of `hand_size` cards.
    spec fn holds_prefix(&self, s: Seq<Card>, i: int, j: int, hand_size: int) -> bool {
        &&& forall|e: Effect| !(e is Conversion) ==> #[trigger] self.total_held(e) == prefix_total(s, i, j, e)
        &&& self.settle_can_convert_military_to_trade == (prefix_total(s, i, j, Effect::Conversion) > 0)
        &&& self.develop_trade_power == hand_size - 1 + self.develop_trade_discount
        &&& self.settle_trade_power == hand_size - 1 + self.settle_trade_discount
        &&& self.settle_discard_military@ == prefix_military(s, i, j)
        &&& self.settle_discard_to_negate_trade_if_good@ == prefix_negate(s, i, j)
    }

    /// The baseline capabilities of a player holding `hand_size` cards, with
    /// an empty tableau.
    pub fn new(hand_size: i32) -> (r: Capabilities)
        ensures
            r@ == capabilities_of(Seq::empty(), hand_size as int),
    {
        let r = Capabilities {
            explore_to_see: 2,
            explore_to_keep: 1,
            develop_trade_power: hand_size as i64 - 1,
            develop_trade_discount: 0,
            develop_draw_before: 0,
            settle_trade_power: hand_size as i64 - 1,
            settle_trade_discount: 0,
            settle_military_power: 0,
            settle_good_discounts: GoodTable::zero(),
            settle_good_military: GoodTable::zero(),
            settle_attr_military: AttributeTable::zero(),
            settle_can_convert_military_to_trade: false,
            settle_conversion_discount: 0,
            settle_discard_military: Vec::new(),
            settle_discard_to_negate_trade_if_good: Vec::new(),
        };
        proof {
            let m = capabilities_of(Seq::empty(), hand_size as int);
            assert(r.settle_good_discounts@ =~= m.settle_good_discounts);
            assert(r.settle_good_military@ =~= m.settle_good_military);
            assert(r.settle_attr_military@ =~= m.settle_attr_military);
            assert(r.settle_discard_military@ =~= m.settle_discard_military);
            assert(r.settle_discard_to_negate_trade_if_good@ =~= m.settle_discard_to_negate_trade_if_good);
            assert(r@ =~= m);
        }
        r
    }

    /// Adds what power `p` of the card at tableau position `pos` grants.
    fn apply_power(&mut self, p: Power, pos: usize)
        requires
            forall|e: Effect|
                !(e is Conversion) ==> -WEIGHT_LIMIT <= #[trigger] old(self).total_held(e)
                    + contribution(p, e) <= WEIGHT_LIMIT,
            i32::MIN - 1 <= old(self).develop_trade_power - old(self).develop_trade_discount
                <= i32::MAX,
            i32::MIN - 1 <= old(self).settle_trade_power - old(self).settle_trade_discount
                <= i32::MAX,
        ensures
            forall|e: Effect|
                !(e is Conversion) ==> #[trigger] final(self).total_held(e) == old(self).total_held(e)
                    + contribution(p, e),
            final(self).settle_can_convert_military_to_trade == (
            old(self).settle_can_convert_military_to_trade || p is SettleMilitaryAsTradeWithDiscount),
            final(self).develop_trade_power - final(self).develop_trade_discount
                == old(self).develop_trade_power - old(self).develop_trade_discount,
            final(self).settle_trade_power - final(self).settle_trade_discount
                == old(self).settle_trade_power - old(self).settle_trade_discount,
            final(self).settle_discard_military@ == old(self).settle_discard_military@
                + military_discard_entry(p, pos),
            final(self).settle_discard_to_negate_trade_if_good@
                == old(self).settle_discard_to_negate_trade_if_good@ + negate_discard_entry(p, pos),
    {
        match p {
            Power::ExploreSeeBonus(n) => {
                assert(self.total_held(Effect::ExploreSee) + contribution(p, Effect::ExploreSee)
                    <= WEIGHT_LIMIT);
                self.explore_to_see = self.explore_to_see + n as i64;
            },
            Power::ExploreKeepBonus(n) => {
                assert(self.total_held(Effect::ExploreKeep) + contribution(p, Effect::ExploreKeep)
                    <= WEIGHT_LIMIT);
                self.explore_to_keep = self.explore_to_keep + n as i64;
            },
            Power::DevelopDiscount(n) => {
                assert(self.total_held(Effect::DevelopDiscount) + contribution(
                    p,
                    Effect::DevelopDiscount,
                ) <= WEIGHT_LIMIT);
                self.develop_trade_power = self.develop_trade_power + n as i64;
                self.develop_trade_discount = self.develop_trade_discount + n as i64;
            },
            Power::DevelopDraw(n) => {
                assert(self.total_held(Effect::DevelopDraw) + contribution(p, Effect::DevelopDraw)
                    <= WEIGHT_LIMIT);
                self.develop_draw_before = self.develop_draw_before + n as i64;
            },
            Power::SettleTradeDiscount(n) => {
                assert(self.total_held(Effect::SettleTradeDiscount) + contribution(
                    p,
                    Effect::SettleTradeDiscount,
                ) <= WEIGHT_LIMIT);
                self.settle_trade_power = self.settle_trade_power + n as i64;
                self.settle_trade_discount = self.settle_trade_discount + n as i64;
            },
            Power::SettleMilitaryBonus(n) => {
                assert(self.total_held(Effect::SettleMilitary) + contribution(
                    p,
                    Effect::SettleMilitary,
                ) <= WEIGHT_LIMIT);
                self.settle_military_power = self.settle_military_power + n as i64;
            },
            Power::SettleDiscountIfGood(n, g) => {
                assert(self.total_held(Effect::GoodDiscount(g)) + contribution(
                    p,
                    Effect::GoodDiscount(g),
                ) <= WEIGHT_LIMIT);
                self.settle_good_discounts.add(g, n as i64);
            },
            Power::SettleMilitaryIfGood(n, g) => {
                assert(self.total_held(Effect::GoodMilitary(g)) + contribution(
                    p,
                    Effect::GoodMilitary(g),
                ) <= WEIGHT_LIMIT);
                self.settle_good_military.add(g, n as i64);
            },
            Power::SettleMilitaryIfAttribute(n, a) => {
                assert(self.total_held(Effect::AttributeMilitary(a)) + contribution(
                    p,
                    Effect::AttributeMilitary(a),
                ) <= WEIGHT_LIMIT);
                self.settle_attr_military.add(a, n as i64);
            },
            Power::SettleMilitaryAsTradeWithDiscount(n) => {
                assert(self.total_held(Effect::ConversionDiscount) + contribution(
                    p,
                    Effect::ConversionDiscount,
                ) <= WEIGHT_LIMIT);
                self.settle_can_convert_military_to_trade = true;
                self.settle_conversion_discount = self.settle_conversion_discount + n as i64;
            },
            Power::SettleDiscardForMilitary(n) => {
                self.settle_discard_military.push((pos, n));
            },
            Power::SettleDiscardToNegateTradeIfGood(g) => {
                self.settle_discard_to_negate_trade_if_good.push((pos, g));
            },
        }
        proof {
            assert(self.settle_discard_military@ =~= old(self).settle_discard_military@
                + military_discard_entry(p, pos));
            assert(self.settle_discard_to_negate_trade_if_good@
                =~= old(self).settle_discard_to_negate_trade_if_good@ + negate_discard_entry(p, pos));
        }
    }
}

/// Folds every power of every card of a tableau into the capabilities of a
/// player holding `hand_size` cards.
pub fn aggregate(tableau: &[Card], hand_size: i32) -> (r: Capabilities)
    requires
        tableau_weight(tableau@) <= WEIGHT_LIMIT,
    ensures
        r@ == capabilities_of(tableau@, hand_size as int),
{
    let ghost s = tableau@;
    let ghost h = hand_size as int;
    let mut caps = Capabilities::new(hand_size);
    proof {
        assert(s.take(0) =~= Seq::<Card>::empty());
        assert(card_powers(s, 0).take(0) =~= Seq::<Power>::empty());
        let m = capabilities_of(Seq::empty(), h);
        assert forall|e: Effect| !(e is Conversion) implies #[trigger] caps.total_held(e)
            == prefix_total(s, 0, 0, e) by {
            match e {
                Effect::GoodDiscount(g) => assert(m.settle_good_discounts[g] == 0),
                Effect::GoodMilitary(g) => assert(m.settle_good_military[g] == 0),
                Effect::AttributeMilitary(a) => assert(m.settle_attr_military[a] == 0),
                _ => {},
            }
        }
        assert(caps.settle_discard_military@ =~= prefix_military(s, 0, 0));
        assert(caps.settle_discard_to_negate_trade_if_good@ =~= prefix_negate(s, 0, 0));
    }
    let n = tableau.len();
    let mut i: usize = 0;
    while i < n
        invariant
            n == s.len(),
            s == tableau@,
            h == hand_size as int,
            0 <= i <= n,
            tableau_weight(s) <= WEIGHT_LIMIT,
            caps.holds_prefix(s, i as int, 0, h),
        decreases n - i,
    {
        let card = &tableau[i];
        let m = card.powers.len();
        let mut j: usize = 0;
        while j < m
            invariant
                n == s.len(),
                h == hand_size as int,
                0 <= i < n,
                *card == s[i as int],
                m == card.powers@.len(),
                0 <= j <= m,
                tableau_weight(s) <= WEIGHT_LIMIT,
                caps.holds_prefix(s, i as int, j as int, h),
            decreases m - j,
        {
            let ghost before = caps;
            proof {
                lemma_prefix_step(s, i as int, j as int);
                assert forall|e: Effect| !(e is Conversion) implies -WEIGHT_LIMIT <= #[trigger] caps.total_held(e)
                    + contribution(card.powers@[j as int], e) <= WEIGHT_LIMIT by {
                    assert(prefix_total(s, i as int, j + 1, e) == prefix_total(s, i as int, j as int, e) + contribution(card.powers@[j as int], e));
                }
            }
            caps.apply_power(card.powers[j], i);
            proof {
                assert forall|e: Effect| !(e is Conversion) implies #[trigger] caps.total_held(e)
                    == prefix_total(s, i as int, j + 1, e) by {
                    assert(before.total_held(e) == prefix_total(s, i as int, j as int, e));
                }
                assert(prefix_total(s, i as int, j as int, Effect::Conversion) >= 0);
                assert(prefix_total(s, i as int, j + 1, Effect::Conversion) == prefix_total(s, i as int, j as int, Effect::Conversion) + contribution(card.powers@[j as int], Effect::Conversion));
            }
            j = j + 1;
        }
        proof {
            lemma_prefix_next_card(s, i as int);
        }
        i = i + 1;
    }
    proof {
        let m = capabilities_of(s, h);
        assert(s.take(n as int) =~= s);
        assert(card_powers(s, n as int).take(0) =~= Seq::<Power>::empty());
        assert(caps.total_held(Effect::ExploreSee) == prefix_total(s, n as int, 0, Effect::ExploreSee));
        assert(caps.total_held(Effect::ExploreKeep) == prefix_total(s, n as int, 0, Effect::ExploreKeep));
        assert(caps.total_held(Effect::DevelopDiscount) == prefix_total(s, n as int, 0, Effect::DevelopDiscount));
        assert(caps.total_held(Effect::DevelopDraw) == prefix_total(s, n as int, 0, Effect::DevelopDraw));
        assert(caps.total_held(Effect::SettleTradeDiscount) == prefix_total(s, n as int, 0, Effect::SettleTradeDiscount));
        assert(caps.total_held(Effect::SettleMilitary) == prefix_total(s, n as int, 0, Effect::SettleMilitary));
        assert(caps.total_held(Effect::ConversionDiscount) == prefix_total(s, n as int, 0, Effect::ConversionDiscount));
        assert forall|g: Option<Good>| #[trigger] caps.settle_good_discounts@[g] == m.settle_good_discounts[g] by {
            assert(caps.total_held(Effect::GoodDiscount(g)) == prefix_total(s, n as int, 0, Effect::GoodDiscount(g)));
        }
        assert forall|g: Option<Good>| #[trigger] caps.settle_good_military@[g] == m.settle_good_military[g] by {
            assert(caps.total_held(Effect::GoodMilitary(g)) == prefix_total(s, n as int, 0, Effect::GoodMilitary(g)));
        }
        assert forall|a: Attribute| #[trigger] caps.settle_attr_military@[a] == m.settle_attr_military[a] by {
            assert(caps.total_held(Effect::AttributeMilitary(a)) == prefix_total(s, n as int, 0, Effect::AttributeMilitary(a)));
        }
        assert(caps.settle_good_discounts@ =~= m.settle_good_discounts);
        assert(caps.settle_good_military@ =~= m.settle_good_military);
        assert(caps.settle_attr_military@ =~= m.settle_attr_military);
        assert(prefix_military(s, n as int, 0) =~= m.settle_discard_military);
        assert(prefix_negate(s, n as int, 0) =~= m.settle_discard_to_negate_trade_if_good);
        assert(caps@ =~= m);
    }
    caps
}

} // verus!
