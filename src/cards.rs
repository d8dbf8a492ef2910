use crate::cost::Cost;
use crate::utils::Variants;
use vstd::prelude::*;
use vstd::string::StringExecFns;

verus! {

/// A commodity that a world may produce.
#[derive(Debug, Clone, Copy, PartialEq, Eq, Structural, Hash)]
pub enum Good {
    Novelty,
    RareElements,
    Genes,
    AlienTechnology,
}

impl Variants for Good {
    open spec fn all_variants() -> Seq<Good> {
        seq![Good::Novelty, Good::RareElements, Good::Genes, Good::AlienTechnology]
    }

    fn variants() -> (r: Vec<Good>) {
        vec![Good::Novelty, Good::RareElements, Good::Genes, Good::AlienTechnology]
    }
}

/// How a world yields its good.
#[derive(Debug, Clone, Copy, PartialEq, Eq, Structural)]
pub enum Production {
    Windfall,
    Produces,
}

#[derive(Debug, Clone, Copy, PartialEq, Eq, Structural)]
pub enum CardType {
    World,
    Development,
}

impl Default for CardType {
    fn default() -> (r: CardType)
        ensures
            r == CardType::World,
    {
        CardType::World
    }
}

/// A tag on a card, used as a key for conditional military bonuses.
#[derive(Debug, Clone, Copy, PartialEq, Eq, Structural, Hash)]
pub enum Attribute {
    Alien,
    Imperium,
    Rebel,
    Starter,
    Uplift,
}

impl Variants for Attribute {
    open spec fn all_variants() -> Seq<Attribute> {
        seq![
            Attribute::Alien,
            Attribute::Imperium,
            Attribute::Rebel,
            Attribute::Starter,
            Attribute::Uplift,
        ]
    }

    fn variants() -> (r: Vec<Attribute>) {
        vec![
            Attribute::Alien,
            Attribute::Imperium,
            Attribute::Rebel,
            Attribute::Starter,
            Attribute::Uplift,
        ]
    }
}

/// An effect that a card in a tableau grants to its owner.
#[derive(Debug, Clone, Copy, PartialEq, Eq, Structural)]
pub enum Power {
    ExploreSeeBonus(i32),
    ExploreKeepBonus(i32),
    DevelopDiscount(i32),
    DevelopDraw(i32),
    SettleMilitaryBonus(i32),
    SettleTradeDiscount(i32),
    SettleDiscountIfGood(i32, Option<Good>),
    SettleMilitaryIfGood(i32, Option<Good>),
    SettleMilitaryIfAttribute(i32, Attribute),
    SettleMilitaryAsTradeWithDiscount(i32),
    SettleDiscardForMilitary(i32),
    SettleDiscardToNegateTradeIfGood(Option<Good>),
}

/// The phase a power acts in.
#[derive(Debug, Clone, Copy, PartialEq, Eq, Structural)]
pub enum PowerType {
    Explore,
    Develop,
    Settle,
}

/// A victory point rule of a card. Scoring is not part of this library: the
/// rules are carried as data only.
#[derive(Debug, PartialEq)]
pub enum Points {
    Simple(i32),
    TableauConditions(i32, Vec<Condition>),
    Military,
    PerVPChip(i32),
}

/// A condition on a tableau card that a victory point rule counts.
#[derive(Debug, PartialEq)]
pub enum Condition {
    CardType(CardType),
    PowerType(PowerType),
    Named(String),
    Attribute(Attribute),
    MinCost(Cost),
    MaxCost(Cost),
    Produces(Production, Good),
    Good(Good),
    Production(Production),
    Not(Box<Condition>),
}

#[derive(Debug, PartialEq)]
pub struct Card {
    pub name: String,
    pub card_type: CardType,
    pub cost: Cost,
    pub victory_points: Vec<Points>,
    pub produces: Option<(Production, Good)>,
    pub powers: Vec<Power>,
    pub attributes: Vec<Attribute>,
}

impl Card {
    /// The good the card produces, if any.
    pub open spec fn good(&self) -> Option<Good> {
        match self.produces {
            Some((_, g)) => Some(g),
            None => None,
        }
    }

    /// A development never costs military strength.
    pub open spec fn well_formed(&self) -> bool {
        self.card_type == CardType::Development ==> !(self.cost is Military)
    }

    /// A free world with the given name, with no points, production,
    /// powers or attributes.
    pub fn new(name: &str) -> (r: Card)
        ensures
            r.name@ == name@,
            r.card_type == CardType::World,
            r.cost == Cost::Free,
            r.victory_points@.len() == 0,
            r.produces is None,
            r.powers@.len() == 0,
            r.attributes@.len() == 0,
    {
        Card {
            name: String::from_str(name),
            card_type: CardType::World,
            cost: Cost::Free,
            victory_points: Vec::new(),
            produces: None,
            powers: Vec::new(),
            attributes: Vec::new(),
        }
    }

    pub fn card_type(self, card_type: CardType) -> (r: Card)
        ensures
            r == (Card { card_type, ..self }),
    {
        let mut c = self;
        c.card_type = card_type;
        c
    }

    pub fn trade_cost(self, cost: i32) -> (r: Card)
        ensures
            r == (Card { cost: Cost::Trade(cost), ..self }),
    {
        let mut c = self;
        c.cost = Cost::Trade(cost);
        c
    }

    pub fn military_cost(self, cost: i32) -> (r: Card)
        ensures
            r == (Card { cost: Cost::Military(cost), ..self }),
    {
        let mut c = self;
        c.cost = Cost::Military(cost);
        c
    }

    pub fn add_points(self, points: Points) -> (r: Card)
        ensures
            r.victory_points@ == self.victory_points@.push(points),
            r == (Card { victory_points: r.victory_points, ..self }),
    {
        let mut c = self;
        c.victory_points.push(points);
        c
    }

    pub fn produces(self, production: Production, good: Good) -> (r: Card)
        ensures
            r == (Card { produces: Some((production, good)), ..self }),
    {
        let mut c = self;
        c.produces = Some((production, good));
        c
    }

    pub fn add_power(self, power: Power) -> (r: Card)
        ensures
            r.powers@ == self.powers@.push(power),
            r == (Card { powers: r.powers, ..self }),
    {
        let mut c = self;
        c.powers.push(power);
        c
    }

    pub fn add_attribute(self, attribute: Attribute) -> (r: Card)
        ensures
            r.attributes@ == self.attributes@.push(attribute),
            r == (Card { attributes: r.attributes, ..self }),
    {
        let mut c = self;
        c.attributes.push(attribute);
        c
    }
}

} // verus!
