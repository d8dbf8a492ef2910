use crate::capabilities::{
    aggregate, capabilities_of, lemma_powers_weight_prefix, lemma_tableau_bounded,
    lemma_tableau_weight_prefix, power_weight, powers_weight, tableau_weight, Capabilities,
    CapabilitiesModel, Effect, WEIGHT_LIMIT,
};
use crate::cards::{Attribute, Card, CardType, Good, Power};
use crate::cost::Cost;
use crate::game::{Game, Phase};
use crate::selection::{
    chosen_cards, discard_all, is_valid_selection, split_chosen, unchosen_cards, valid_selection,
};
use vstd::multiset::Multiset;
use vstd::prelude::*;

verus! {

broadcast use vstd::seq_lib::group_to_multiset_ensures;

/// A decision the phase resolver waits for, with what it needs to finish the
/// phase once the decision is made.
#[derive(Debug)]
pub enum Step {
    /// Keep exactly `keep` of the revealed cards; the others are discarded.
    Explore { revealed: Vec<Card>, keep: usize },
    /// Develop at most one development of the hand.
    Develop { trade_power: i64, discount: i64 },
    /// Settle at most one world of the hand.
    Settle { capabilities: Capabilities },
    /// Discard exactly `price` cards of the hand as payment.
    Pay { price: usize },
    /// The phase is over.
    Done,
}

/// What the chooser answered.
#[derive(Debug)]
pub enum Answer {
    /// Positions in the list shown, for a choice of several cards.
    Many(Vec<usize>),
    /// A position in the list shown, or none, for an optional choice.
    One(Option<usize>),
}

/// The positions of the cards of type `t` in `hand`, in order.
pub open spec fn type_positions(hand: Seq<Card>, t: CardType) -> Seq<usize>
    decreases hand.len(),
{
    if hand.len() == 0 {
        seq![]
    } else if hand.last().card_type == t {
        type_positions(hand.drop_last(), t).push((hand.len() - 1) as usize)
    } else {
        type_positions(hand.drop_last(), t)
    }
}

pub(crate) proof fn lemma_type_positions(hand: Seq<Card>, t: CardType)
    requires
        hand.len() <= usize::MAX,
    ensures
        forall|k: int|
            0 <= k < type_positions(hand, t).len() ==> {
                &&& #[trigger] type_positions(hand, t)[k] < hand.len()
                &&& hand[type_positions(hand, t)[k] as int].card_type == t
            },
    decreases hand.len(),
{
    if hand.len() > 0 {
        lemma_type_positions(hand.drop_last(), t);
    }
}

/// The positions of the cards of type `t` in `hand`, in order.
pub fn positions_of_type(hand: &Vec<Card>, t: CardType) -> (r: Vec<usize>)
    ensures
        r@ == type_positions(hand@, t),
{
    let mut r: Vec<usize> = Vec::new();
    let mut i: usize = 0;
    while i < hand.len()
        invariant
            i <= hand@.len(),
            r@ == type_positions(hand@.take(i as int), t),
        decreases hand@.len() - i,
    {
        proof {
            assert(hand@.take(i + 1).drop_last() =~= hand@.take(i as int));
        }
        if hand[i].card_type == t {
            r.push(i);
        }
        i = i + 1;
    }
    proof {
        assert(hand@.take(i as int) =~= hand@);
    }
    r
}

/// Whether a cost can be met with the power of its own kind: a trade cost
/// with trade power, a military cost with military power. A free card can
/// always be had.
pub open spec fn spec_affordable(cost: Cost, trade_power: int, military_power: int) -> bool {
    match cost {
        Cost::Free => true,
        Cost::Trade(n) => n <= trade_power,
        Cost::Military(n) => n <= military_power,
    }
}

/// Whether a card of this cost can be acquired with the given trade and
/// military power: a trade cost never with military, a military cost never
/// with trade.
pub fn affordable(cost: &Cost, trade_power: i128, military_power: i128) -> (r: bool)
    ensures
        r == spec_affordable(*cost, trade_power as int, military_power as int),
        cost is Military ==> (r <==> cost.magnitude() <= military_power),
        cost is Trade ==> (r <==> cost.magnitude() <= trade_power),
{
    match *cost {
        Cost::Free => true,
        Cost::Trade(n) => n as i128 <= trade_power,
        Cost::Military(n) => n as i128 <= military_power,
    }
}

/// The sum of the bonuses of `m` for the attributes in `attrs`, each
/// attribute counted once.
pub open spec fn attribute_bonus(m: Map<Attribute, int>, attrs: Seq<Attribute>) -> int {
    (if attrs.contains(Attribute::Alien) {
        m[Attribute::Alien]
    } else {
        0
    }) + (if attrs.contains(Attribute::Imperium) {
        m[Attribute::Imperium]
    } else {
        0
    }) + (if attrs.contains(Attribute::Rebel) {
        m[Attribute::Rebel]
    } else {
        0
    }) + (if attrs.contains(Attribute::Starter) {
        m[Attribute::Starter]
    } else {
        0
    }) + (if attrs.contains(Attribute::Uplift) {
        m[Attribute::Uplift]
    } else {
        0
    })
}

/// The trade power available to settle `card`: the settle trade power plus
/// the discount for the good the card produces (or for producing none).
pub open spec fn world_trade_power(c: CapabilitiesModel, card: Card) -> int {
    c.settle_trade_power + c.settle_good_discounts[card.good()]
}

/// The military power available to conquer `card`: the settle military
/// power plus the bonuses for its good and for its attributes.
pub open spec fn world_military_power(c: CapabilitiesModel, card: Card) -> int {
    c.settle_military_power + c.settle_good_military[card.good()] + attribute_bonus(
        c.settle_attr_military,
        card.attributes@,
    )
}

/// The number of hand cards paid to settle `card`: a trade cost less the
/// settle discount and the discount for its good; nothing for a free or a
/// conquered world.
pub open spec fn world_price(c: CapabilitiesModel, card: Card) -> int {
    match card.cost {
        Cost::Trade(n) => n - c.settle_trade_discount - c.settle_good_discounts[card.good()],
        _ => 0,
    }
}

/// The number of hand cards paid to develop a card of this cost.
pub open spec fn develop_price(cost: Cost, discount: int) -> int {
    match cost {
        Cost::Trade(n) => n - discount,
        _ => 0,
    }
}

/// The step after a card was acquired for `price` cards.
pub open spec fn after_acquiring(price: int) -> Step {
    if price > 0 {
        Step::Pay { price: price as usize }
    } else {
        Step::Done
    }
}

fn has_attribute(attrs: &Vec<Attribute>, a: Attribute) -> (r: bool)
    ensures
        r == attrs@.contains(a),
{
    let mut i: usize = 0;
    while i < attrs.len()
        invariant
            i <= attrs@.len(),
            forall|j: int| 0 <= j < i ==> attrs@[j] != a,
        decreases attrs@.len() - i,
    {
        if attrs[i] == a {
            return true;
        }
        i = i + 1;
    }
    false
}

fn good_of(card: &Card) -> (r: Option<Good>)
    ensures
        r == card.good(),
{
    match card.produces {
        Some((_, g)) => Some(g),
        None => None,
    }
}

fn world_powers(caps: &Capabilities, card: &Card) -> (r: (i128, i128))
    ensures
        r.0 == world_trade_power(caps@, *card),
        r.1 == world_military_power(caps@, *card),
{
    let g = good_of(card);
    let trade = caps.settle_trade_power as i128 + caps.settle_good_discounts.get(g) as i128;
    let mut military = caps.settle_military_power as i128 + caps.settle_good_military.get(g) as i128;
    let table = &caps.settle_attr_military;
    if has_attribute(&card.attributes, Attribute::Alien) {
        military = military + table.get(Attribute::Alien) as i128;
    }
    if has_attribute(&card.attributes, Attribute::Imperium) {
        military = military + table.get(Attribute::Imperium) as i128;
    }
    if has_attribute(&card.attributes, Attribute::Rebel) {
        military = military + table.get(Attribute::Rebel) as i128;
    }
    if has_attribute(&card.attributes, Attribute::Starter) {
        military = military + table.get(Attribute::Starter) as i128;
    }
    if has_attribute(&card.attributes, Attribute::Uplift) {
        military = military + table.get(Attribute::Uplift) as i128;
    }
    (trade, military)
}

fn world_price_of(caps: &Capabilities, card: &Card) -> (r: i128)
    ensures
        r == world_price(caps@, *card),
{
    match card.cost {
        Cost::Trade(n) => n as i128 - caps.settle_trade_discount as i128
            - caps.settle_good_discounts.get(good_of(card)) as i128,
        _ => 0,
    }
}

/// The weight of every power of every card of `tableau` is within the limit
/// for which capabilities are computed.
pub fn tableau_within_limit(tableau: &Vec<Card>) -> (r: bool)
    ensures
        r == (tableau_weight(tableau@) <= WEIGHT_LIMIT),
{
    let mut total: u64 = 0;
    let mut i: usize = 0;
    while i < tableau.len()
        invariant
            i <= tableau@.len(),
            total == tableau_weight(tableau@.take(i as int)),
            total <= WEIGHT_LIMIT,
        decreases tableau@.len() - i,
    {
        let powers = &tableau[i].powers;
        let mut j: usize = 0;
        let ghost base = total as int;
        while j < powers.len()
            invariant
                i < tableau@.len(),
                *powers == tableau@[i as int].powers,
                j <= powers@.len(),
                base == tableau_weight(tableau@.take(i as int)),
                total == base + powers_weight(powers@.take(j as int)),
                total <= WEIGHT_LIMIT,
            decreases powers@.len() - j,
        {
            proof {
                assert(powers@.take(j + 1).drop_last() =~= powers@.take(j as int));
            }
            let w = weight_of(&powers[j]);
            if w > WEIGHT_LIMIT - total {
                proof {
                    lemma_weight_exceeds(tableau@, i as int, j as int);
                }
                return false;
            }
            total = total + w;
            j = j + 1;
        }
        proof {
            assert(powers@.take(j as int) =~= powers@);
            assert(tableau@.take(i + 1).drop_last() =~= tableau@.take(i as int));
        }
        i = i + 1;
    }
    proof {
        assert(tableau@.take(i as int) =~= tableau@);
    }
    true
}

fn weight_of(p: &Power) -> (r: u64)
    ensures
        r == power_weight(*p),
{
    let n: i32 = match *p {
        Power::ExploreSeeBonus(n) => n,
        Power::ExploreKeepBonus(n) => n,
        Power::DevelopDiscount(n) => n,
        Power::DevelopDraw(n) => n,
        Power::SettleMilitaryBonus(n) => n,
        Power::SettleTradeDiscount(n) => n,
        Power::SettleDiscountIfGood(n, _) => n,
        Power::SettleMilitaryIfGood(n, _) => n,
        Power::SettleMilitaryIfAttribute(n, _) => n,
        Power::SettleMilitaryAsTradeWithDiscount(n) => n,
        Power::SettleDiscardForMilitary(n) => n,
        Power::SettleDiscardToNegateTradeIfGood(_) => 0,
    };
    if n < 0 {
        (1 - n as i64) as u64
    } else {
        (n as i64 + 1) as u64
    }
}

/// The weight of the first `i` cards and the first `j + 1` powers of card
/// `i` is at most the weight of the whole tableau.
proof fn lemma_weight_exceeds(s: Seq<Card>, i: int, j: int)
    requires
        0 <= i < s.len(),
        0 <= j < s[i].powers@.len(),
    ensures
        tableau_weight(s.take(i)) + powers_weight(s[i].powers@.take(j)) + power_weight(
            s[i].powers@[j],
        ) <= tableau_weight(s),
{
    let ps = s[i].powers@;
    assert(ps.take(j + 1).drop_last() =~= ps.take(j));
    lemma_powers_weight_prefix(ps, j + 1);
    assert(s.take(i + 1).drop_last() =~= s.take(i));
    lemma_tableau_weight_prefix(s, i + 1);
}

proof fn lemma_empty_multiset(s: Seq<Card>)
    requires
        s.len() == 0,
    ensures
        s.to_multiset() == Multiset::<Card>::empty(),
{
    broadcast use vstd::seq_lib::group_to_multiset_ensures;

    vstd::multiset::lemma_multiset_empty_len(s.to_multiset());
}

/// The top `n` cards of a pile, in the order they are drawn.
pub open spec fn top_cards(pile: Seq<Card>, n: int) -> Seq<Card> {
    Seq::new(n as nat, |k: int| pile[pile.len() - 1 - k])
}

/// A player: the cards in hand and the cards of the tableau, whose powers
/// are active.
#[derive(Debug)]
pub struct Player {
    pub hand: Vec<Card>,
    pub tableau: Vec<Card>,
}

impl Player {
    /// The capabilities the player has now.
    pub open spec fn capabilities(&self) -> CapabilitiesModel {
        capabilities_of(self.tableau@, self.hand@.len() as int)
    }

    /// Every card in the hand is well formed: no development costs military.
    pub open spec fn hand_well_formed(&self) -> bool {
        forall|i: int| 0 <= i < self.hand@.len() ==> #[trigger] self.hand@[i].well_formed()
    }

    /// The capabilities of the player can be computed: the tableau's power
    /// weight is within the limit and the hand size fits an `i32`.
    pub open spec fn can_compute(&self) -> bool {
        &&& tableau_weight(self.tableau@) <= WEIGHT_LIMIT
        &&& self.hand@.len() <= i32::MAX
    }

    /// The player can act in `phase`: the capabilities can be computed, the
    /// piles hold every card the phase draws, and an explore keeps no more
    /// cards than it reveals.
    pub open spec fn ready(&self, game: &Game, phase: Phase) -> bool {
        let caps = self.capabilities();
        &&& self.can_compute()
        &&& match phase {
            Phase::Explore => {
                &&& caps.explore_to_see <= game.spec_card_count()
                &&& (caps.explore_to_keep <= 0 || caps.explore_to_keep <= caps.explore_to_see)
            },
            Phase::Develop => caps.develop_draw_before <= game.spec_card_count(),
            Phase::Settle => true,
        }
    }

    /// `step` was made for this hand: the trade power it holds is the hand
    /// size less one plus the discount, and a payment asks for no more cards
    /// than the hand holds.
    pub open spec fn step_fits(&self, step: Step) -> bool {
        match step {
            Step::Develop { trade_power, discount } => trade_power - discount == self.hand@.len()
                - 1,
            Step::Settle { capabilities } => capabilities.settle_trade_power
                - capabilities.settle_trade_discount == self.hand@.len() - 1,
            Step::Pay { price } => price <= self.hand@.len(),
            _ => true,
        }
    }

    /// A player with an empty hand and an empty tableau.
    pub fn new() -> (r: Player)
        ensures
            r.hand@.len() == 0,
            r.tableau@.len() == 0,
    {
        Player { hand: Vec::new(), tableau: Vec::new() }
    }

    /// Draws cards until the hand holds `up_to` cards.
    pub fn draw_up_to(&mut self, game: &mut Game, up_to: usize)
        requires
            old(self).hand@.len() + old(game).spec_card_count() >= up_to,
        ensures
            final(self).hand@.len() == if old(self).hand@.len() < up_to {
                up_to as int
            } else {
                old(self).hand@.len() as int
            },
            final(self).hand@.take(old(self).hand@.len() as int) == old(self).hand@,
            final(game).cards().add(
                final(self).hand@.skip(old(self).hand@.len() as int).to_multiset(),
            ) == old(game).cards(),
            final(self).tableau@ == old(self).tableau@,
    {
        let ghost start = self.hand@.len() as int;
        proof {
            assert(self.hand@.skip(start) =~= Seq::<Card>::empty());
            lemma_empty_multiset(self.hand@.skip(start));
            assert(game.cards().add(Multiset::empty()) =~= game.cards());
            assert(self.hand@.take(start) =~= self.hand@);
        }
        while self.hand.len() < up_to
            invariant
                start <= self.hand@.len(),
                start < up_to ==> self.hand@.len() <= up_to,
                start >= up_to ==> self.hand@.len() == start,
                self.hand@.len() + game.spec_card_count() >= up_to,
                start == old(self).hand@.len(),
                self.hand@.take(start) == old(self).hand@,
                game.cards().add(self.hand@.skip(start).to_multiset()) == old(game).cards(),
                self.tableau@ == old(self).tableau@,
            decreases up_to - self.hand@.len(),
        {
            let ghost before = self.hand@;
            let ghost g0 = game.cards();
            let c = game.draw();
            self.hand.push(c);
            proof {
                broadcast use vstd::seq_lib::group_to_multiset_ensures;

                assert(self.hand@.take(start) =~= before.take(start));
                assert(self.hand@.skip(start) =~= before.skip(start).push(c));
                let g1 = game.cards();
                assert(g1.insert(c) == g0);
                assert(before.skip(start).push(c).to_multiset() =~= before.skip(start).to_multiset().insert(c));
                assert(g1.add(before.skip(start).to_multiset().insert(c)) =~= g1.insert(c).add(before.skip(start).to_multiset()));
            }
        }

    }

    /// The capabilities the powers of the tableau give the player now.
    pub fn get_capabilities(&self) -> (r: Capabilities)
        requires
            self.can_compute(),
        ensures
            r@ == self.capabilities(),
    {
        aggregate(self.tableau.as_slice(), self.hand.len() as i32)
    }

    /// Draws `count` cards from the piles.
    fn draw_cards(game: &mut Game, count: i64) -> (r: Vec<Card>)
        requires
            count <= old(game).spec_card_count(),
        ensures
            r@.len() == if count > 0 {
                count as int
            } else {
                0
            },
            final(game).cards().add(r@.to_multiset()) == old(game).cards(),
            final(game).spec_card_count() == old(game).spec_card_count() - r@.len(),
            count <= 0 ==> *final(game) == *old(game),
            old(game).draw_pile@.len() >= count ==> {
                &&& final(game).draw_pile@ == old(game).draw_pile@.take(
                    old(game).draw_pile@.len() - r@.len(),
                )
                &&& final(game).discard_pile@ == old(game).discard_pile@
                &&& r@ == top_cards(old(game).draw_pile@, r@.len() as int)
            },
            final(game).discard_pile@ == old(game).discard_pile@
                || final(game).discard_pile@.len() == 0,
    {
        broadcast use vstd::seq_lib::group_to_multiset_ensures;

        let mut drawn: Vec<Card> = Vec::new();
        let mut k: i64 = 0;
        proof {
            lemma_empty_multiset(drawn@);
            assert(game.cards().add(Multiset::empty()) =~= game.cards());
        }
        while k < count
            invariant
                0 <= k,
                count > 0 ==> k <= count,
                count <= 0 ==> k == 0,
                drawn@.len() == k,
                count <= old(game).spec_card_count(),
                game.cards().add(drawn@.to_multiset()) == old(game).cards(),
                game.spec_card_count() == old(game).spec_card_count() - k,
                k == 0 ==> *game == *old(game),
                old(game).draw_pile@.len() >= count ==> {
                    &&& game.draw_pile@ == old(game).draw_pile@.take(
                        old(game).draw_pile@.len() - k,
                    )
                    &&& game.discard_pile@ == old(game).discard_pile@
                    &&& drawn@ == top_cards(old(game).draw_pile@, k as int)
                },
                game.discard_pile@ == old(game).discard_pile@ || game.discard_pile@.len() == 0,
            decreases count - k,
        {
            let ghost g0 = game.cards();
            let ghost pile = game.draw_pile@;
            let c = game.draw();
            let ghost before = drawn@;
            drawn.push(c);
            proof {
                assert(drawn@ =~= before.push(c));
                let g1 = game.cards();
                assert(g1.insert(c) == g0);
                assert(before.push(c).to_multiset() =~= before.to_multiset().insert(c));
                assert(g1.add(before.to_multiset().insert(c)) =~= g1.insert(c).add(before.to_multiset()));
                let all = old(game).draw_pile@;
                if all.len() >= count {
                    assert(pile.len() == all.len() - k);
                    assert(c == all[all.len() - 1 - k]);
                    assert(game.draw_pile@ =~= all.take(all.len() - (k + 1)));
                    assert(drawn@ =~= top_cards(all, k + 1));
                }
            }
            k = k + 1;
        }
        drawn
    }

    /// Explore: reveals `explore_to_see` cards and asks which
    /// `explore_to_keep` of them to keep. With nothing to keep, every
    /// revealed card is discarded at once.
    pub fn explore(&mut self, game: &mut Game) -> (r: Step)
        requires
            old(self).ready(old(game), Phase::Explore),
        ensures
            explore_started(*old(self), *final(self), *old(game), *final(game), r),
    {
        let caps = self.get_capabilities();
        let revealed = Player::draw_cards(game, caps.explore_to_see);
        if caps.explore_to_keep <= 0 {
            let ghost mid = *game;
            let ghost shown = revealed@;
            discard_all(game, revealed);
            proof {
                vstd::seq_lib::lemma_multiset_commutative(mid.discard_pile@, shown);
                assert(game.cards() =~= mid.cards().add(shown.to_multiset()));
                assert(game.discard_pile@.take(game.discard_pile@.len() - shown.len())
                    =~= mid.discard_pile@);
            }
            Step::Done
        } else {
            let shown = revealed.len();
            proof {
                assert(caps.explore_to_keep <= shown);
            }
            Step::Explore { revealed, keep: caps.explore_to_keep as usize }
        }
    }

    /// Develop: draws the `develop_draw_before` cards first, then asks which
    /// development to build with the trade power of the hand as it is after
    /// the draw.
    pub fn develop(&mut self, game: &mut Game) -> (r: Step)
        requires
            old(self).ready(old(game), Phase::Develop),
        ensures
            develop_started(*old(self), *final(self), *old(game), *final(game), r),
            final(self).step_fits(r),
    {
        let caps = self.get_capabilities();
        proof {
            lemma_tableau_bounded(self.tableau@, Effect::DevelopDiscount);
            lemma_tableau_bounded(self.tableau@, Effect::DevelopDraw);
        }
        let mut drawn = Player::draw_cards(game, caps.develop_draw_before);
        proof {
            assert(drawn@.len() <= WEIGHT_LIMIT);
            assert(caps.develop_trade_power == self.hand@.len() - 1 + caps.develop_trade_discount);
        }
        let n = drawn.len() as i64;
        let ghost before = self.hand@;
        let ghost new_cards = drawn@;
        self.hand.append(&mut drawn);
        proof {
            assert(self.hand@.take(before.len() as int) =~= before);
            assert(self.hand@.skip(before.len() as int) =~= new_cards);
            assert(self.hand@ =~= before + new_cards);
        }
        Step::Develop {
            trade_power: caps.develop_trade_power + n,
            discount: caps.develop_trade_discount,
        }
    }

    /// Settle: asks which world to settle, with the capabilities the
    /// tableau gives now.
    pub fn settle(&mut self) -> (r: Step)
        requires
            old(self).can_compute(),
        ensures
            final(self).hand@ == old(self).hand@,
            final(self).tableau@ == old(self).tableau@,
            r matches Step::Settle { capabilities } && capabilities@ == old(self).capabilities(),
            final(self).step_fits(r),
    {
        let capabilities = self.get_capabilities();
        Step::Settle { capabilities }
    }

    /// Starts `phase`: computes the capabilities, draws what the phase draws
    /// and returns the first decision to make.
    pub fn act(&mut self, game: &mut Game, phase: Phase) -> (r: Step)
        requires
            old(self).ready(old(game), phase),
        ensures
            phase == Phase::Explore ==> explore_started(*old(self), *final(self), *old(game), *final(game), r),
            phase == Phase::Develop ==> develop_started(*old(self), *final(self), *old(game), *final(game), r),
            phase == Phase::Settle ==> {
                &&& final(self).hand@ == old(self).hand@
                &&& final(self).tableau@ == old(self).tableau@
                &&& final(game).draw_pile@ == old(game).draw_pile@
                &&& final(game).discard_pile@ == old(game).discard_pile@
                &&& r matches Step::Settle { capabilities } && capabilities@ == old(self).capabilities()
            },
            final(self).step_fits(r),
    {
        match phase {
            Phase::Explore => self.explore(game),
            Phase::Develop => self.develop(game),
            Phase::Settle => self.settle(),
        }
    }

    /// Whether the player can act in `phase` now.
    pub fn is_ready(&self, game: &Game, phase: Phase) -> (r: bool)
        ensures
            r == self.ready(game, phase),
    {
        if !tableau_within_limit(&self.tableau) || self.hand.len() > i32::MAX as usize {
            return false;
        }
        let caps = self.get_capabilities();
        let cards = game.draw_pile.len() as i128 + game.discard_pile.len() as i128;
        match phase {
            Phase::Explore => caps.explore_to_see as i128 <= cards && (caps.explore_to_keep <= 0
                || caps.explore_to_keep <= caps.explore_to_see),
            Phase::Develop => caps.develop_draw_before as i128 <= cards,
            Phase::Settle => true,
        }
    }

    /// Whether the capabilities of the player can be computed now.
    pub fn can_compute_now(&self) -> (r: bool)
        ensures
            r == self.can_compute(),
    {
        tableau_within_limit(&self.tableau) && self.hand.len() <= i32::MAX as usize
    }

    /// Whether no development in the hand costs military.
    pub fn hand_is_well_formed(&self) -> (r: bool)
        ensures
            r == self.hand_well_formed(),
    {
        let mut i: usize = 0;
        while i < self.hand.len()
            invariant
                i <= self.hand@.len(),
                forall|j: int| 0 <= j < i ==> #[trigger] self.hand@[j].well_formed(),
            decreases self.hand@.len() - i,
        {
            let card = &self.hand[i];
            if card.card_type == CardType::Development && card.cost.is_military() {
                assert(!self.hand@[i as int].well_formed());
                return false;
            }
            i = i + 1;
        }
        true
    }

    /// Whether `step` was made for this hand.
    pub fn fits(&self, step: &Step) -> (r: bool)
        ensures
            r == self.step_fits(*step),
    {
        let last = self.hand.len() as i128 - 1;
        match step {
            Step::Develop { trade_power, discount } => *trade_power as i128 - *discount as i128
                == last,
            Step::Settle { capabilities } => capabilities.settle_trade_power as i128
                - capabilities.settle_trade_discount as i128 == last,
            Step::Pay { price } => *price <= self.hand.len(),
            _ => true,
        }
    }

    /// Moves the hand card at position `p` to the tableau.
    fn acquire(&mut self, p: usize)
        requires
            p < old(self).hand@.len(),
        ensures
            final(self).hand@ == old(self).hand@.remove(p as int),
            final(self).tableau@ == old(self).tableau@.push(old(self).hand@[p as int]),
    {
        let c = self.hand.remove(p);
        self.tableau.push(c);
    }

    fn resume_develop(
        &mut self,
        trade_power: i64,
        discount: i64,
        choice: Option<usize>,
    ) -> (r: Step)
        requires
            old(self).hand_well_formed(),
            trade_power - discount == old(self).hand@.len() - 1,
        ensures
            develop_result(*old(self), *final(self), trade_power, discount, choice, r),
            final(self).step_fits(r),
    {
        let k = match choice {
            None => {
                return Step::Done;
            },
            Some(k) => k,
        };
        let hand_len = self.hand.len();
        let positions = positions_of_type(&self.hand, CardType::Development);
        if k >= positions.len() {
            return Step::Develop { trade_power, discount };
        }
        proof {
            lemma_type_positions(self.hand@, CardType::Development);
        }
        let p = positions[k];
        let cost = self.hand[p].cost;
        if cost.magnitude_value() as i64 > trade_power {
            return Step::Develop { trade_power, discount };
        }
        self.acquire(p);
        let price: i128 = match cost {
            Cost::Trade(n) => n as i128 - discount as i128,
            _ => 0,
        };
        if price > 0 {
            assert(price < hand_len);
            Step::Pay { price: price as usize }
        } else {
            Step::Done
        }
    }

    fn resume_settle(&mut self, capabilities: Capabilities, choice: Option<usize>) -> (r: Step)
        requires
            capabilities.settle_trade_power - capabilities.settle_trade_discount == old(
                self,
            ).hand@.len() - 1,
        ensures
            settle_result(*old(self), *final(self), capabilities, choice, r),
            final(self).step_fits(r),
    {
        let k = match choice {
            None => {
                return Step::Done;
            },
            Some(k) => k,
        };
        let hand_len = self.hand.len();
        let positions = positions_of_type(&self.hand, CardType::World);
        if k >= positions.len() {
            return Step::Settle { capabilities };
        }
        proof {
            lemma_type_positions(self.hand@, CardType::World);
        }
        let p = positions[k];
        let (trade_power, military_power) = world_powers(&capabilities, &self.hand[p]);
        if !affordable(&self.hand[p].cost, trade_power, military_power) {
            return Step::Settle { capabilities };
        }
        let price = world_price_of(&capabilities, &self.hand[p]);
        self.acquire(p);
        if price > 0 {
            assert(price < hand_len);
            Step::Pay { price: price as usize }
        } else {
            Step::Done
        }
    }

    fn resume_explore(
        &mut self,
        game: &mut Game,
        revealed: Vec<Card>,
        keep: usize,
        chosen: Vec<usize>,
    ) -> (r: Step)
        ensures
            explore_result(*old(self), *final(self), *old(game), *final(game), revealed, keep, chosen, r),
            final(self).step_fits(r),
    {
        if !is_valid_selection(&chosen, revealed.len(), keep) {
            return Step::Explore { revealed, keep };
        }
        let (mut kept, others) = split_chosen(revealed, &chosen);
        self.hand.append(&mut kept);
        discard_all(game, others);
        Step::Done
    }

    /// Discards the chosen hand cards as payment.
    fn pay_trade_cost(&mut self, game: &mut Game, price: usize, chosen: Vec<usize>) -> (r: Step)
        requires
            price <= old(self).hand@.len(),
        ensures
            final(self).step_fits(r),
            pay_result(*old(self), *final(self), *old(game), *final(game), price, chosen, r),
    {
        if !is_valid_selection(&chosen, self.hand.len(), price) {
            return Step::Pay { price };
        }
        let mut hand = Vec::new();
        std::mem::swap(&mut hand, &mut self.hand);
        let (paid, rest) = split_chosen(hand, &chosen);
        self.hand = rest;
        discard_all(game, paid);
        Step::Done
    }

    /// Makes the decision that `step` waits for with the chooser's answer,
    /// and returns the next decision. An answer that does not fit the
    /// decision (out of range, too few or too many cards, a card that
    /// cannot be afforded) changes nothing and asks the same decision again.
    pub fn resume(&mut self, game: &mut Game, step: Step, answer: Answer) -> (r: Step)
        requires
            old(self).hand_well_formed(),
            old(self).step_fits(step),
        ensures
            match (step, answer) {
                (Step::Explore { revealed, keep }, Answer::Many(chosen)) => explore_result(
                    *old(self),
                    *final(self),
                    *old(game),
                    *final(game),
                    revealed,
                    keep,
                    chosen,
                    r,
                ),
                (Step::Develop { trade_power, discount }, Answer::One(choice)) => {
                    &&& develop_result(*old(self), *final(self), trade_power, discount, choice, r)
                    &&& *final(game) == *old(game)
                },
                (Step::Settle { capabilities }, Answer::One(choice)) => {
                    &&& settle_result(*old(self), *final(self), capabilities, choice, r)
                    &&& *final(game) == *old(game)
                },
                (Step::Pay { price }, Answer::Many(chosen)) => pay_result(
                    *old(self),
                    *final(self),
                    *old(game),
                    *final(game),
                    price,
                    chosen,
                    r,
                ),
                _ => {
                    &&& r == step
                    &&& *final(self) == *old(self)
                    &&& *final(game) == *old(game)
                },
            },
            final(self).step_fits(r),
    {
        match (step, answer) {
            (Step::Explore { revealed, keep }, Answer::Many(chosen)) => {
                self.resume_explore(game, revealed, keep, chosen)
            },
            (Step::Develop { trade_power, discount }, Answer::One(choice)) => {
                self.resume_develop(trade_power, discount, choice)
            },
            (Step::Settle { capabilities }, Answer::One(choice)) => {
                self.resume_settle(capabilities, choice)
            },
            (Step::Pay { price }, Answer::Many(chosen)) => {
                self.pay_trade_cost(game, price, chosen)
            },
            (step, _) => step,
        }
    }
}

/// The outcome of an explore started from `p0` and `g0`.
pub open spec fn explore_started(p0: Player, p1: Player, g0: Game, g1: Game, r: Step) -> bool {
    let caps = p0.capabilities();
    let see = if caps.explore_to_see > 0 {
        caps.explore_to_see
    } else {
        0
    };
    let pile = g0.draw_pile@.len() as int;
    let shown = g1.discard_pile@.len() - see;
    &&& p1.hand@ == p0.hand@
    &&& p1.tableau@ == p0.tableau@
    &&& caps.explore_to_keep <= 0 ==> {
        &&& r is Done
        &&& g1.cards() == g0.cards()
        &&& shown >= 0
        &&& (g1.discard_pile@.take(shown) == g0.discard_pile@ || shown == 0)
        &&& pile >= see ==> {
            &&& g1.draw_pile@ == g0.draw_pile@.take(pile - see)
            &&& g1.discard_pile@ == g0.discard_pile@ + top_cards(g0.draw_pile@, see)
        }
    }
    &&& caps.explore_to_keep > 0 ==> (r matches Step::Explore { revealed, keep } && {
        &&& revealed@.len() == see
        &&& keep == caps.explore_to_keep
        &&& keep <= revealed@.len()
        &&& g1.cards().add(revealed@.to_multiset()) == g0.cards()
        &&& pile >= see ==> {
            &&& revealed@ == top_cards(g0.draw_pile@, see)
            &&& g1.draw_pile@ == g0.draw_pile@.take(pile - see)
            &&& g1.discard_pile@ == g0.discard_pile@
        }
    })
}

/// The outcome of a develop started from `p0` and `g0`.
pub open spec fn develop_started(p0: Player, p1: Player, g0: Game, g1: Game, r: Step) -> bool {
    let caps = p0.capabilities();
    let drawn = if caps.develop_draw_before > 0 {
        caps.develop_draw_before
    } else {
        0
    };
    &&& p1.hand@.len() == p0.hand@.len() + drawn
    &&& p1.hand@.take(p0.hand@.len() as int) == p0.hand@
    &&& g1.cards().add(p1.hand@.skip(p0.hand@.len() as int).to_multiset()) == g0.cards()
    &&& p1.tableau@ == p0.tableau@
    &&& drawn == 0 ==> g1 == g0
    &&& g0.draw_pile@.len() >= drawn ==> {
        &&& g1.draw_pile@ == g0.draw_pile@.take(g0.draw_pile@.len() - drawn)
        &&& g1.discard_pile@ == g0.discard_pile@
        &&& p1.hand@ == p0.hand@ + top_cards(g0.draw_pile@, drawn)
    }
    &&& r == Step::Develop {
        trade_power: (caps.develop_trade_power + drawn) as i64,
        discount: caps.develop_trade_discount as i64,
    }
}

/// The outcome of answering a develop decision with `choice`, a position
/// among the developments of the hand.
pub open spec fn develop_result(
    p0: Player,
    p1: Player,
    trade_power: i64,
    discount: i64,
    choice: Option<usize>,
    r: Step,
) -> bool {
    let positions = type_positions(p0.hand@, CardType::Development);
    match choice {
        None => r is Done && p1 == p0,
        Some(k) => if k >= positions.len() || p0.hand@[positions[k as int] as int].cost.magnitude()
            > trade_power {
            r == Step::Develop { trade_power, discount } && p1 == p0
        } else {
            let p = positions[k as int] as int;
            let card = p0.hand@[p];
            &&& p1.hand@ == p0.hand@.remove(p)
            &&& p1.tableau@ == p0.tableau@.push(card)
            &&& r == after_acquiring(develop_price(card.cost, discount as int))
        },
    }
}

/// The outcome of answering a settle decision with `choice`, a position
/// among the worlds of the hand. A world is affordable when its cost is met
/// by the power of its own kind, counting the bonuses for its good and its
/// attributes.
pub open spec fn settle_result(
    p0: Player,
    p1: Player,
    capabilities: Capabilities,
    choice: Option<usize>,
    r: Step,
) -> bool {
    let positions = type_positions(p0.hand@, CardType::World);
    let c = capabilities@;
    match choice {
        None => r is Done && p1 == p0,
        Some(k) => if k >= positions.len() || !spec_affordable(
            p0.hand@[positions[k as int] as int].cost,
            world_trade_power(c, p0.hand@[positions[k as int] as int]),
            world_military_power(c, p0.hand@[positions[k as int] as int]),
        ) {
            r == Step::Settle { capabilities } && p1 == p0
        } else {
            let p = positions[k as int] as int;
            let card = p0.hand@[p];
            &&& p1.hand@ == p0.hand@.remove(p)
            &&& p1.tableau@ == p0.tableau@.push(card)
            &&& r == after_acquiring(world_price(c, card))
        },
    }
}

/// The outcome of answering an explore decision: with exactly `keep`
/// distinct revealed positions, the chosen cards join the hand and the
/// others go to the discard pile.
pub open spec fn explore_result(
    p0: Player,
    p1: Player,
    g0: Game,
    g1: Game,
    revealed: Vec<Card>,
    keep: usize,
    chosen: Vec<usize>,
    r: Step,
) -> bool {
    if valid_selection(chosen@, revealed@.len() as int, keep as int) {
        &&& r is Done
        &&& p1.hand@ == p0.hand@ + chosen_cards(revealed@, chosen@)
        &&& p1.tableau@ == p0.tableau@
        &&& g1.draw_pile@ == g0.draw_pile@
        &&& g1.discard_pile@ == g0.discard_pile@ + unchosen_cards(revealed@, chosen@)
    } else {
        r == Step::Explore { revealed, keep } && p1 == p0 && g1 == g0
    }
}

/// The outcome of answering a payment decision: with exactly `price`
/// distinct hand positions, those cards go from the hand to the discard
/// pile.
pub open spec fn pay_result(
    p0: Player,
    p1: Player,
    g0: Game,
    g1: Game,
    price: usize,
    chosen: Vec<usize>,
    r: Step,
) -> bool {
    if valid_selection(chosen@, p0.hand@.len() as int, price as int) {
        &&& r is Done
        &&& p1.hand@ == unchosen_cards(p0.hand@, chosen@)
        &&& p1.tableau@ == p0.tableau@
        &&& g1.draw_pile@ == g0.draw_pile@
        &&& g1.discard_pile@ == g0.discard_pile@ + chosen_cards(p0.hand@, chosen@)
    } else {
        r == Step::Pay { price } && p1 == p0 && g1 == g0
    }
}

} // verus!
