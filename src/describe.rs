use crate::cards::{Attribute, Card, CardType, Good, Points, Power, Production};
use crate::cost::Cost;
use vstd::prelude::*;
use vstd::string::StringExecFns;

verus! {

/// The text of a decimal digit.
pub open spec fn digit_text(d: nat) -> Seq<char> {
    if d == 0 {
        "0"@
    } else if d == 1 {
        "1"@
    } else if d == 2 {
        "2"@
    } else if d == 3 {
        "3"@
    } else if d == 4 {
        "4"@
    } else if d == 5 {
        "5"@
    } else if d == 6 {
        "6"@
    } else if d == 7 {
        "7"@
    } else if d == 8 {
        "8"@
    } else {
        "9"@
    }
}

/// The decimal digits of `n`, without leading zeros.
pub open spec fn digits_of(n: nat) -> Seq<char>
    decreases n,
{
    if n < 10 {
        digit_text(n)
    } else {
        digits_of(n / 10) + digit_text(n % 10)
    }
}

/// The decimal form of `n`, with a minus sign when negative.
pub open spec fn decimal_of(n: int) -> Seq<char> {
    if n < 0 {
        "-"@ + digits_of((-n) as nat)
    } else {
        digits_of(n as nat)
    }
}

fn digit_str(d: u64) -> (r: &'static str)
    requires
        d < 10,
    ensures
        r@ == digit_text(d as nat),
{
    if d == 0 {
        "0"
    } else if d == 1 {
        "1"
    } else if d == 2 {
        "2"
    } else if d == 3 {
        "3"
    } else if d == 4 {
        "4"
    } else if d == 5 {
        "5"
    } else if d == 6 {
        "6"
    } else if d == 7 {
        "7"
    } else if d == 8 {
        "8"
    } else {
        "9"
    }
}

fn push_digits(s: &mut String, n: u64)
    ensures
        final(s)@ == old(s)@ + digits_of(n as nat),
    decreases n,
{
    if n >= 10 {
        push_digits(s, n / 10);
    }
    s.append(digit_str(n % 10));
    proof {
        assert(final(s)@ =~= old(s)@ + digits_of(n as nat)) by {
            if n >= 10 {
                assert(digits_of(n as nat) == digits_of((n / 10) as nat) + digit_text((n % 10) as nat));
            }
        }
    }
}

fn push_decimal(s: &mut String, n: i32)
    ensures
        final(s)@ == old(s)@ + decimal_of(n as int),
{
    if n < 0 {
        s.append("-");
        let ghost mid = s@;
        push_digits(s, (-(n as i64)) as u64);
        assert(s@ =~= old(s)@ + decimal_of(n as int));
    } else {
        push_digits(s, n as u64);
    }
}

pub open spec fn good_text(g: Good) -> Seq<char> {
    match g {
        Good::Novelty => "Novelty"@,
        Good::RareElements => "RareElements"@,
        Good::Genes => "Genes"@,
        Good::AlienTechnology => "AlienTechnology"@,
    }
}

fn good_str(g: Good) -> (r: &'static str)
    ensures
        r@ == good_text(g),
{
    match g {
        Good::Novelty => "Novelty",
        Good::RareElements => "RareElements",
        Good::Genes => "Genes",
        Good::AlienTechnology => "AlienTechnology",
    }
}

pub open spec fn attribute_text(a: Attribute) -> Seq<char> {
    match a {
        Attribute::Alien => "Alien"@,
        Attribute::Imperium => "Imperium"@,
        Attribute::Rebel => "Rebel"@,
        Attribute::Starter => "Starter"@,
        Attribute::Uplift => "Uplift"@,
    }
}

fn attribute_str(a: Attribute) -> (r: &'static str)
    ensures
        r@ == attribute_text(a),
{
    match a {
        Attribute::Alien => "Alien",
        Attribute::Imperium => "Imperium",
        Attribute::Rebel => "Rebel",
        Attribute::Starter => "Starter",
        Attribute::Uplift => "Uplift",
    }
}

pub open spec fn option_good_text(g: Option<Good>) -> Seq<char> {
    match g {
        Some(g) => "Some("@ + good_text(g) + ")"@,
        None => "None"@,
    }
}

fn push_option_good(s: &mut String, g: Option<Good>)
    ensures
        final(s)@ == old(s)@ + option_good_text(g),
{
    match g {
        Some(g) => {
            s.append("Some(");
            s.append(good_str(g));
            s.append(")");
            assert(s@ =~= old(s)@ + option_good_text(Some(g)));
        },
        None => s.append("None"),
    }
}

/// The name of a power with its arguments, as in `SettleMilitaryBonus(2)`.
pub open spec fn power_text(p: Power) -> Seq<char> {
    match p {
        Power::ExploreSeeBonus(n) => "ExploreSeeBonus"@ + "("@ + decimal_of(n as int) + ")"@,
        Power::ExploreKeepBonus(n) => "ExploreKeepBonus"@ + "("@ + decimal_of(n as int) + ")"@,
        Power::DevelopDiscount(n) => "DevelopDiscount"@ + "("@ + decimal_of(n as int) + ")"@,
        Power::DevelopDraw(n) => "DevelopDraw"@ + "("@ + decimal_of(n as int) + ")"@,
        Power::SettleMilitaryBonus(n) => "SettleMilitaryBonus"@ + "("@ + decimal_of(n as int) + ")"@,
        Power::SettleTradeDiscount(n) => "SettleTradeDiscount"@ + "("@ + decimal_of(n as int) + ")"@,
        Power::SettleDiscountIfGood(n, g) => "SettleDiscountIfGood("@ + decimal_of(n as int)
            + ", "@ + option_good_text(g) + ")"@,
        Power::SettleMilitaryIfGood(n, g) => "SettleMilitaryIfGood("@ + decimal_of(n as int)
            + ", "@ + option_good_text(g) + ")"@,
        Power::SettleMilitaryIfAttribute(n, a) => "SettleMilitaryIfAttribute("@ + decimal_of(
            n as int,
        ) + ", "@ + attribute_text(a) + ")"@,
        Power::SettleMilitaryAsTradeWithDiscount(n) => "SettleMilitaryAsTradeWithDiscount"@ + "("@
            + decimal_of(n as int) + ")"@,
        Power::SettleDiscardForMilitary(n) => "SettleDiscardForMilitary"@ + "("@ + decimal_of(n as int)
            + ")"@,
        Power::SettleDiscardToNegateTradeIfGood(g) => "SettleDiscardToNegateTradeIfGood("@
            + option_good_text(g) + ")"@,
    }
}

fn push_amount_power(s: &mut String, name: &str, n: i32)
    ensures
        final(s)@ == old(s)@ + name@ + "("@ + decimal_of(n as int) + ")"@,
{
    s.append(name);
    s.append("(");
    push_decimal(s, n);
    s.append(")");
    assert(s@ =~= old(s)@ + name@ + "("@ + decimal_of(n as int) + ")"@);
}

fn push_power(s: &mut String, p: Power)
    ensures
        final(s)@ == old(s)@ + power_text(p),
{
    match p {
        Power::ExploreSeeBonus(n) => push_amount_power(s, "ExploreSeeBonus", n),
        Power::ExploreKeepBonus(n) => push_amount_power(s, "ExploreKeepBonus", n),
        Power::DevelopDiscount(n) => push_amount_power(s, "DevelopDiscount", n),
        Power::DevelopDraw(n) => push_amount_power(s, "DevelopDraw", n),
        Power::SettleMilitaryBonus(n) => push_amount_power(s, "SettleMilitaryBonus", n),
        Power::SettleTradeDiscount(n) => push_amount_power(s, "SettleTradeDiscount", n),
        Power::SettleDiscountIfGood(n, g) => {
            s.append("SettleDiscountIfGood(");
            push_decimal(s, n);
            s.append(", ");
            push_option_good(s, g);
            s.append(")");
            assert(s@ =~= old(s)@ + power_text(p));
        },
        Power::SettleMilitaryIfGood(n, g) => {
            s.append("SettleMilitaryIfGood(");
            push_decimal(s, n);
            s.append(", ");
            push_option_good(s, g);
            s.append(")");
            assert(s@ =~= old(s)@ + power_text(p));
        },
        Power::SettleMilitaryIfAttribute(n, a) => {
            s.append("SettleMilitaryIfAttribute(");
            push_decimal(s, n);
            s.append(", ");
            s.append(attribute_str(a));
            s.append(")");
            assert(s@ =~= old(s)@ + power_text(p));
        },
        Power::SettleMilitaryAsTradeWithDiscount(n) => push_amount_power(
            s,
            "SettleMilitaryAsTradeWithDiscount",
            n,
        ),
        Power::SettleDiscardForMilitary(n) => push_amount_power(s, "SettleDiscardForMilitary", n),
        Power::SettleDiscardToNegateTradeIfGood(g) => {
            s.append("SettleDiscardToNegateTradeIfGood(");
            push_option_good(s, g);
            s.append(")");
            assert(s@ =~= old(s)@ + power_text(p));
        },
    }
    assert(s@ =~= old(s)@ + power_text(p));
}

/// The bracketed type and cost, as in `(World - 2 military)` or
/// `<Development - 3 trade>`.
pub open spec fn cost_text(t: CardType, c: Cost) -> Seq<char> {
    let (left, name, right) = match t {
        CardType::World => ("("@, "World"@, ")"@),
        CardType::Development => ("<"@, "Development"@, ">"@),
    };
    left + name + " - "@ + match c {
        Cost::Military(m) => decimal_of(m as int) + " military"@,
        Cost::Trade(n) => decimal_of(n as int) + " trade"@,
        Cost::Free => "free"@,
    } + right
}

fn push_cost(s: &mut String, t: CardType, c: Cost)
    ensures
        final(s)@ == old(s)@ + cost_text(t, c),
{
    match t {
        CardType::World => {
            s.append("(");
            s.append("World");
        },
        CardType::Development => {
            s.append("<");
            s.append("Development");
        },
    }
    s.append(" - ");
    match c {
        Cost::Military(m) => {
            push_decimal(s, m);
            s.append(" military");
        },
        Cost::Trade(n) => {
            push_decimal(s, n);
            s.append(" trade");
        },
        Cost::Free => s.append("free"),
    }
    match t {
        CardType::World => s.append(")"),
        CardType::Development => s.append(">"),
    }
    assert(s@ =~= old(s)@ + cost_text(t, c));
}

/// The simple victory points, each as ` {n VPs}`, and one ` {?? VPs}` at
/// the end when some rule is not simple.
pub open spec fn simple_points_text(ps: Seq<Points>) -> Seq<char>
    decreases ps.len(),
{
    if ps.len() == 0 {
        seq![]
    } else {
        simple_points_text(ps.drop_last()) + match ps.last() {
            Points::Simple(n) => " {"@ + decimal_of(n as int) + " VPs}"@,
            _ => seq![],
        }
    }
}

pub open spec fn has_complex_points(ps: Seq<Points>) -> bool {
    exists|i: int| 0 <= i < ps.len() && !(#[trigger] ps[i] is Simple)
}

pub open spec fn points_text(ps: Seq<Points>) -> Seq<char> {
    simple_points_text(ps) + if has_complex_points(ps) {
        " {?? VPs}"@
    } else {
        seq![]
    }
}

pub open spec fn production_text(p: Option<(Production, Good)>) -> Seq<char> {
    match p {
        None => seq![],
        Some((prod, g)) => " "@ + match prod {
            Production::Windfall => "Windfall"@,
            Production::Produces => "Produces"@,
        } + ": "@ + good_text(g),
    }
}

pub open spec fn powers_text(ps: Seq<Power>) -> Seq<char>
    decreases ps.len(),
{
    if ps.len() == 0 {
        seq![]
    } else {
        powers_text(ps.drop_last()) + " "@ + power_text(ps.last())
    }
}

/// The one-line summary of a card: its name, bracketed type and cost,
/// victory points, production and powers, separated by spaces. Scoring is
/// not computed here, so the point rules that depend on the tableau,
/// military or chips are shown together as a single `{?? VPs}`.
pub open spec fn card_text(c: Card) -> Seq<char> {
    c.name@ + " "@ + cost_text(c.card_type, c.cost) + points_text(c.victory_points@)
        + production_text(c.produces) + powers_text(c.powers@)
}

impl Card {
    /// The one-line summary of the card shown when choosing among cards.
    pub fn describe(&self) -> (r: String)
        ensures
            r@ == card_text(*self),
    {
        let mut s = self.name.clone();
        s.append(" ");
        push_cost(&mut s, self.card_type, self.cost);
        let ghost after_cost = s@;
        let mut complex = false;
        let mut i: usize = 0;
        while i < self.victory_points.len()
            invariant
                i <= self.victory_points@.len(),
                s@ == after_cost + simple_points_text(self.victory_points@.take(i as int)),
                complex == has_complex_points(self.victory_points@.take(i as int)),
            decreases self.victory_points@.len() - i,
        {
            let ghost ps = self.victory_points@;
            proof {
                assert(ps.take(i + 1).drop_last() =~= ps.take(i as int));
            }
            match &self.victory_points[i] {
                Points::Simple(n) => {
                    s.append(" {");
                    push_decimal(&mut s, *n);
                    s.append(" VPs}");
                    assert(s@ =~= after_cost + simple_points_text(ps.take(i + 1)));
                    assert(has_complex_points(ps.take(i + 1)) == has_complex_points(ps.take(i as int))) by {
                        if has_complex_points(ps.take(i + 1)) {
                            let j = choose|j: int| 0 <= j < i + 1 && !(#[trigger] ps.take(i + 1)[j] is Simple);
                            assert(ps.take(i as int)[j] == ps.take(i + 1)[j]);
                        }
                        if has_complex_points(ps.take(i as int)) {
                            let j = choose|j: int| 0 <= j < i && !(#[trigger] ps.take(i as int)[j] is Simple);
                            assert(ps.take(i as int)[j] == ps.take(i + 1)[j]);
                        }
                    }
                },
                _ => {
                    complex = true;
                    assert(s@ =~= after_cost + simple_points_text(ps.take(i + 1)));
                    assert(!(ps.take(i + 1)[i as int] is Simple));
                },
            }
            i = i + 1;
        }
        proof {
            assert(self.victory_points@.take(i as int) =~= self.victory_points@);
        }
        if complex {
            s.append(" {?? VPs}");
        }
        let ghost after_points = s@;
        assert(after_points =~= after_cost + points_text(self.victory_points@));
        match self.produces {
            None => {},
            Some((prod, g)) => {
                s.append(" ");
                match prod {
                    Production::Windfall => s.append("Windfall"),
                    Production::Produces => s.append("Produces"),
                }
                s.append(": ");
                s.append(good_str(g));
            },
        }
        let ghost after_production = s@;
        assert(after_production =~= after_points + production_text(self.produces));
        let mut j: usize = 0;
        while j < self.powers.len()
            invariant
                j <= self.powers@.len(),
                s@ == after_production + powers_text(self.powers@.take(j as int)),
            decreases self.powers@.len() - j,
        {
            proof {
                assert(self.powers@.take(j + 1).drop_last() =~= self.powers@.take(j as int));
            }
            s.append(" ");
            push_power(&mut s, self.powers[j]);
            assert(s@ =~= after_production + powers_text(self.powers@.take(j + 1)));
            j = j + 1;
        }
        proof {
            assert(self.powers@.take(j as int) =~= self.powers@);
            assert(s@ =~= card_text(*self));
        }
        s
    }
}

} // verus!
