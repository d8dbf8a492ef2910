use crate::cards::{Attribute, Card, CardType, Condition, Good, Points, Power, PowerType, Production};
use crate::cost::Cost;
use vstd::prelude::*;
use vstd::string::StringExecFns;

verus! {

/// The number of cards in the catalog.
pub const CATALOG_SIZE: usize = 40;

/// Each card of the catalog as (name, type, cost), in catalog order.
pub open spec fn catalog_summary() -> Seq<(Seq<char>, CardType, Cost)> {
    seq![
        ("Alien Tech Institute"@, CardType::Development, Cost::Trade(6)),
        ("Alien Robot Scout Ship"@, CardType::World, Cost::Military(4)),
        ("Alien Robot Sentry"@, CardType::World, Cost::Military(2)),
        ("Alpha Centauri"@, CardType::World, Cost::Trade(2)),
        ("Aquatic Uplift Race"@, CardType::World, Cost::Military(2)),
        ("Asteroid Belt"@, CardType::World, Cost::Trade(2)),
        ("Avian Uplift Race"@, CardType::World, Cost::Military(2)),
        ("Blaster Gem Mines"@, CardType::World, Cost::Trade(3)),
        ("Colony Ship"@, CardType::Development, Cost::Trade(2)),
        ("Contact Specialist"@, CardType::Development, Cost::Trade(1)),
        ("Deserted Alien Colony"@, CardType::World, Cost::Trade(5)),
        ("Deserted Alien Library"@, CardType::World, Cost::Trade(6)),
        ("Deserted Alien Outpost"@, CardType::World, Cost::Trade(4)),
        ("Destroyed World"@, CardType::World, Cost::Trade(1)),
        ("Drop Ships"@, CardType::Development, Cost::Trade(4)),
        ("Empath World"@, CardType::World, Cost::Trade(1)),
        ("Expedition Force"@, CardType::Development, Cost::Trade(1)),
        ("Former Penal Colony"@, CardType::World, Cost::Military(2)),
        ("Galactic Federation"@, CardType::Development, Cost::Trade(6)),
        ("Galactic Imperium"@, CardType::Development, Cost::Trade(6)),
        ("Galactic Renaissance"@, CardType::Development, Cost::Trade(6)),
        ("Galactic Survey: SETI"@, CardType::Development, Cost::Trade(6)),
        ("Interstellar Bank"@, CardType::Development, Cost::Trade(2)),
        ("Investment Credits"@, CardType::Development, Cost::Trade(1)),
        ("The Last of the  Uplift Gnarssh"@, CardType::World, Cost::Military(1)),
        ("Lost Alien Warship"@, CardType::World, Cost::Military(5)),
        ("New Galactic Order"@, CardType::Development, Cost::Trade(6)),
        ("New Military Tactics"@, CardType::Development, Cost::Trade(1)),
        ("New Sparta"@, CardType::World, Cost::Military(2)),
        ("Pre-Sentient Race"@, CardType::World, Cost::Trade(2)),
        ("Radioactive World"@, CardType::World, Cost::Trade(2)),
        ("Rebel Base"@, CardType::World, Cost::Military(6)),
        ("Rebel Fuel Cache"@, CardType::World, Cost::Military(1)),
        ("Rebel Homeworld"@, CardType::World, Cost::Military(7)),
        ("Rebel Outpost"@, CardType::World, Cost::Military(5)),
        ("Rebel Warrior Race"@, CardType::World, Cost::Military(3)),
        ("Refugee World"@, CardType::World, Cost::Free),
        ("Replicant Robots"@, CardType::Development, Cost::Trade(4)),
        ("Reptile Uplift Race"@, CardType::World, Cost::Military(2)),
        ("Space Marines"@, CardType::Development, Cost::Trade(2)),
    ]
}

/// The name, type and cost of a card.
pub open spec fn summary_of(c: Card) -> (Seq<char>, CardType, Cost) {
    (c.name@, c.card_type, c.cost)
}

/// Every card of the game, once, with the names, types and costs of
/// `catalog_summary`. No development costs military and no cost is
/// negative.
pub fn get_cards() -> (r: Vec<Card>)
    ensures
        r@.len() == CATALOG_SIZE,
        r@.map_values(|c: Card| summary_of(c)) == catalog_summary(),
        forall|i: int| 0 <= i < r@.len() ==> #[trigger] r@[i].well_formed(),
        forall|i: int| 0 <= i < r@.len() ==> #[trigger] r@[i].cost.magnitude() >= 0,
{
    let mut cards: Vec<Card> = Vec::new();
    cards.push(
        Card::new("Alien Tech Institute")
            .card_type(CardType::Development)
            .trade_cost(6)
            .add_power(Power::SettleDiscountIfGood(-2, Some(Good::AlienTechnology)))
            .add_power(Power::SettleMilitaryIfGood(2, Some(Good::AlienTechnology)))
            .add_attribute(Attribute::Alien)
            .add_points(Points::TableauConditions(3, vec![
                Condition::CardType(CardType::World),
                Condition::Produces(Production::Produces, Good::AlienTechnology),
            ]))
            .add_points(Points::TableauConditions(2, vec![
                Condition::CardType(CardType::World),
                Condition::Produces(Production::Windfall, Good::AlienTechnology),
            ]))
            .add_points(Points::TableauConditions(2, vec![
                Condition::Attribute(Attribute::Alien),
                Condition::Not(Box::new(Condition::Good(Good::AlienTechnology))),
            ]))
    );
    cards.push(
        Card::new("Alien Robot Scout Ship")
            .card_type(CardType::World)
            .military_cost(4)
            .add_points(Points::Simple(2))
            .produces(Production::Windfall, Good::AlienTechnology)
            .add_power(Power::SettleMilitaryBonus(1))
            .add_attribute(Attribute::Alien)
    );
    cards.push(
        Card::new("Alien Robot Sentry")
            .card_type(CardType::World)
            .military_cost(2)
            .add_points(Points::Simple(2))
            .produces(Production::Windfall, Good::AlienTechnology)
            .add_attribute(Attribute::Alien)
    );
    cards.push(
        Card::new("Alpha Centauri")
            .card_type(CardType::World)
            .trade_cost(2)
            .produces(Production::Windfall, Good::RareElements)
            .add_power(Power::SettleDiscountIfGood(1, Some(Good::RareElements)))
            .add_power(Power::SettleMilitaryIfGood(1, Some(Good::RareElements)))
    );
    cards.push(
        Card::new("Aquatic Uplift Race")
            .card_type(CardType::World)
            .military_cost(2)
            .add_points(Points::Simple(2))
            .add_attribute(Attribute::Uplift)
    );
    cards.push(
        Card::new("Asteroid Belt")
            .card_type(CardType::World)
            .trade_cost(2)
            .add_points(Points::Simple(1))
            .produces(Production::Windfall, Good::RareElements)
    );
    cards.push(
        Card::new("Avian Uplift Race")
            .card_type(CardType::World)
            .military_cost(2)
            .add_points(Points::Simple(2))
            .produces(Production::Windfall, Good::Genes)
            .add_attribute(Attribute::Uplift)
    );
    cards.push(
        Card::new("Blaster Gem Mines")
            .card_type(CardType::World)
            .trade_cost(3)
            .add_points(Points::Simple(2))
            .produces(Production::Windfall, Good::RareElements)
            .add_power(Power::SettleMilitaryBonus(1))
    );
    cards.push(
        Card::new("Colony Ship")
            .card_type(CardType::Development)
            .trade_cost(2)
            .add_points(Points::Simple(1))
            .add_power(Power::SettleDiscardToNegateTradeIfGood(None))
    );
    cards.push(
        Card::new("Contact Specialist")
            .card_type(CardType::Development)
            .trade_cost(1)
            .add_points(Points::Simple(1))
            .add_power(Power::SettleMilitaryBonus(-1))
            .add_power(Power::SettleMilitaryAsTradeWithDiscount(1))
    );
    cards.push(
        Card::new("Deserted Alien Colony")
            .card_type(CardType::World)
            .trade_cost(5)
            .add_points(Points::Simple(4))
            .produces(Production::Windfall, Good::AlienTechnology)
            .add_attribute(Attribute::Alien)
    );
    cards.push(
        Card::new("Deserted Alien Library")
            .card_type(CardType::World)
            .trade_cost(6)
            .add_points(Points::Simple(5))
            .produces(Production::Windfall, Good::AlienTechnology)
            .add_attribute(Attribute::Alien)
    );
    cards.push(
        Card::new("Deserted Alien Outpost")
            .card_type(CardType::World)
            .trade_cost(4)
            .add_points(Points::Simple(3))
            .produces(Production::Windfall, Good::AlienTechnology)
            .add_attribute(Attribute::Alien)
    );
    cards.push(
        Card::new("Destroyed World")
            .card_type(CardType::World)
            .trade_cost(1)
            .produces(Production::Windfall, Good::RareElements)
    );
    cards.push(
        Card::new("Drop Ships")
            .card_type(CardType::Development)
            .trade_cost(4)
            .add_points(Points::Simple(2))
            .add_power(Power::SettleMilitaryBonus(3))
    );
    cards.push(
        Card::new("Empath World")
            .card_type(CardType::World)
            .trade_cost(1)
            .add_points(Points::Simple(1))
            .produces(Production::Windfall, Good::Genes)
            .add_power(Power::SettleMilitaryBonus(-1))
    );
    cards.push(
        Card::new("Expedition Force")
            .card_type(CardType::Development)
            .trade_cost(1)
            .add_points(Points::Simple(1))
            .add_power(Power::ExploreSeeBonus(1))
            .add_power(Power::SettleMilitaryBonus(1))
    );
    cards.push(
        Card::new("Former Penal Colony")
            .card_type(CardType::World)
            .military_cost(2)
            .add_points(Points::Simple(1))
            .produces(Production::Windfall, Good::Novelty)
            .add_power(Power::SettleMilitaryBonus(1))
    );
    cards.push(
        Card::new("Galactic Federation")
            .card_type(CardType::Development)
            .trade_cost(6)
            .add_power(Power::DevelopDiscount(2))
            .add_points(Points::TableauConditions(1, vec![
                Condition::CardType(CardType::Development),
                Condition::MinCost(Cost::Trade(6)),
            ]))
            .add_points(Points::TableauConditions(1, vec![
                Condition::CardType(CardType::Development),
            ]))
    );
    cards.push(
        Card::new("Galactic Imperium")
            .card_type(CardType::Development)
            .trade_cost(6)
            .add_power(Power::SettleMilitaryIfAttribute(4, Attribute::Rebel))
            .add_attribute(Attribute::Imperium)
            .add_points(Points::TableauConditions(1, vec![
                Condition::Attribute(Attribute::Rebel),
                Condition::MinCost(Cost::Military(1)),
            ]))
            .add_points(Points::TableauConditions(1, vec![
                Condition::MinCost(Cost::Military(1)),
            ]))
    );
    cards.push(
        Card::new("Galactic Renaissance")
            .card_type(CardType::Development)
            .trade_cost(6)
            .add_power(Power::ExploreSeeBonus(2))
            .add_power(Power::ExploreKeepBonus(1))
            .add_points(Points::PerVPChip(3))
            .add_points(Points::TableauConditions(1, vec![
                Condition::Named(String::from_str("Research Labs")),
            ]))
            .add_points(Points::TableauConditions(1, vec![
                Condition::Named(String::from_str("Galactic Trendsetters")),
            ]))
            .add_points(Points::TableauConditions(1, vec![
                Condition::Named(String::from_str("Artist Colony")),
            ]))
    );
    cards.push(
        Card::new("Galactic Survey: SETI")
            .card_type(CardType::Development)
            .trade_cost(6)
            .add_power(Power::ExploreSeeBonus(2))
            .add_points(Points::TableauConditions(1, vec![
                Condition::PowerType(PowerType::Explore),
            ]))
            .add_points(Points::TableauConditions(1, vec![
                Condition::CardType(CardType::World),
            ]))
    );
    cards.push(
        Card::new("Interstellar Bank")
            .card_type(CardType::Development)
            .trade_cost(2)
            .add_points(Points::Simple(1))
            .add_power(Power::DevelopDraw(1))
    );
    cards.push(
        Card::new("Investment Credits")
            .card_type(CardType::Development)
            .trade_cost(1)
            .add_points(Points::Simple(1))
            .add_power(Power::DevelopDiscount(1))
    );
    cards.push(
        Card::new("The Last of the  Uplift Gnarssh")
            .card_type(CardType::World)
            .military_cost(1)
            .produces(Production::Windfall, Good::Genes)
            .add_attribute(Attribute::Uplift)
    );
    cards.push(
        Card::new("Lost Alien Warship")
            .card_type(CardType::World)
            .military_cost(5)
            .add_points(Points::Simple(3))
            .produces(Production::Windfall, Good::AlienTechnology)
            .add_power(Power::SettleMilitaryBonus(2))
            .add_attribute(Attribute::Alien)
    );
    cards.push(
        Card::new("New Galactic Order")
            .card_type(CardType::Development)
            .trade_cost(6)
            .add_power(Power::SettleMilitaryBonus(2))
            .add_points(Points::Military)
    );
    cards.push(
        Card::new("New Military Tactics")
            .card_type(CardType::Development)
            .trade_cost(1)
            .add_points(Points::Simple(1))
            .add_power(Power::SettleDiscardForMilitary(3))
    );
    cards.push(
        Card::new("New Sparta")
            .card_type(CardType::World)
            .military_cost(2)
            .add_points(Points::Simple(1))
            .add_power(Power::SettleMilitaryBonus(2))
            .add_attribute(Attribute::Starter)
    );
    cards.push(
        Card::new("Pre-Sentient Race")
            .card_type(CardType::World)
            .trade_cost(2)
            .add_points(Points::Simple(1))
            .produces(Production::Windfall, Good::Genes)
    );
    cards.push(
        Card::new("Radioactive World")
            .card_type(CardType::World)
            .trade_cost(2)
            .add_points(Points::Simple(1))
            .produces(Production::Windfall, Good::RareElements)
    );
    cards.push(
        Card::new("Rebel Base")
            .card_type(CardType::World)
            .military_cost(6)
            .add_points(Points::Simple(6))
            .add_attribute(Attribute::Rebel)
    );
    cards.push(
        Card::new("Rebel Fuel Cache")
            .card_type(CardType::World)
            .military_cost(1)
            .add_points(Points::Simple(1))
            .add_attribute(Attribute::Rebel)
    );
    cards.push(
        Card::new("Rebel Homeworld")
            .card_type(CardType::World)
            .military_cost(7)
            .add_points(Points::Simple(7))
            .add_attribute(Attribute::Rebel)
    );
    cards.push(
        Card::new("Rebel Outpost")
            .card_type(CardType::World)
            .military_cost(5)
            .add_points(Points::Simple(5))
            .add_power(Power::SettleMilitaryBonus(1))
            .add_attribute(Attribute::Rebel)
    );
    cards.push(
        Card::new("Rebel Warrior Race")
            .card_type(CardType::World)
            .military_cost(3)
            .add_points(Points::Simple(2))
            .add_power(Power::SettleMilitaryBonus(1))
            .add_attribute(Attribute::Rebel)
    );
    cards.push(
        Card::new("Refugee World")
            .card_type(CardType::World)
            .add_points(Points::Simple(1))
            .produces(Production::Windfall, Good::Novelty)
            .add_power(Power::SettleMilitaryBonus(-1))
    );
    cards.push(
        Card::new("Replicant Robots")
            .card_type(CardType::Development)
            .trade_cost(4)
            .add_points(Points::Simple(2))
            .add_power(Power::SettleTradeDiscount(2))
    );
    cards.push(
        Card::new("Reptile Uplift Race")
            .card_type(CardType::World)
            .military_cost(2)
            .add_points(Points::Simple(2))
            .produces(Production::Windfall, Good::Genes)
            .add_attribute(Attribute::Uplift)
    );
    cards.push(
        Card::new("Space Marines")
            .card_type(CardType::Development)
            .trade_cost(2)
            .add_points(Points::Simple(1))
            .add_power(Power::SettleMilitaryBonus(2))
    );
    assert(cards@.map_values(|c: Card| summary_of(c)) =~= catalog_summary());
    cards
}

} // verus!
