use rftg::{aggregate, Attribute, Capabilities, Card, CardType, Good, Power, Variants};

fn card_with(name: &str, powers: Vec<Power>) -> Card {
    let mut c = Card::new(name).card_type(CardType::Development).trade_cost(1);
    for p in powers {
        c = c.add_power(p);
    }
    c
}

fn sample_tableau() -> Vec<Card> {
    vec![
        card_with("Scout", vec![Power::ExploreSeeBonus(1), Power::SettleMilitaryBonus(1)]),
        card_with("Bank", vec![Power::DevelopDraw(1), Power::DevelopDiscount(2)]),
        card_with(
            "Institute",
            vec![
                Power::SettleDiscountIfGood(-2, Some(Good::AlienTechnology)),
                Power::SettleMilitaryIfGood(2, Some(Good::AlienTechnology)),
            ],
        ),
        card_with("Imperium", vec![Power::SettleMilitaryIfAttribute(4, Attribute::Rebel)]),
        card_with("Tactics", vec![Power::SettleDiscardForMilitary(3)]),
        card_with("Colony Ship", vec![Power::SettleDiscardToNegateTradeIfGood(None)]),
        card_with(
            "Contact",
            vec![Power::SettleMilitaryBonus(-1), Power::SettleMilitaryAsTradeWithDiscount(1)],
        ),
        card_with("Robots", vec![Power::SettleTradeDiscount(2), Power::ExploreKeepBonus(1)]),
    ]
}

fn numbers(c: &Capabilities) -> Vec<i64> {
    let mut v = vec![
        c.explore_to_see,
        c.explore_to_keep,
        c.develop_trade_power,
        c.develop_trade_discount,
        c.develop_draw_before,
        c.settle_trade_power,
        c.settle_trade_discount,
        c.settle_military_power,
        c.settle_conversion_discount,
        c.settle_can_convert_military_to_trade as i64,
    ];
    for g in Good::variants() {
        v.push(c.settle_good_discounts.get(Some(g)));
        v.push(c.settle_good_military.get(Some(g)));
    }
    v.push(c.settle_good_discounts.get(None));
    v.push(c.settle_good_military.get(None));
    for a in Attribute::variants() {
        v.push(c.settle_attr_military.get(a));
    }
    v
}

#[test]
fn baseline_capabilities() {
    let c = Capabilities::new(4);
    assert_eq!(c.explore_to_see, 2);
    assert_eq!(c.explore_to_keep, 1);
    assert_eq!(c.develop_trade_power, 3);
    assert_eq!(c.develop_trade_discount, 0);
    assert_eq!(c.develop_draw_before, 0);
    assert_eq!(c.settle_trade_power, 3);
    assert_eq!(c.settle_military_power, 0);
    assert!(!c.settle_can_convert_military_to_trade);
    assert!(c.settle_discard_military.is_empty());
    assert!(c.settle_discard_to_negate_trade_if_good.is_empty());
}

#[test]
fn empty_tableau_gives_baseline() {
    let c = aggregate(&[], 4);
    assert_eq!(numbers(&c), numbers(&Capabilities::new(4)));
    assert_eq!(c.develop_trade_power, 3);
}

#[test]
fn powers_add_up() {
    let t = sample_tableau();
    let c = aggregate(&t, 5);
    assert_eq!(c.explore_to_see, 3);
    assert_eq!(c.explore_to_keep, 2);
    assert_eq!(c.develop_trade_power, 4 + 2);
    assert_eq!(c.develop_trade_discount, 2);
    assert_eq!(c.develop_draw_before, 1);
    assert_eq!(c.settle_trade_power, 4 + 2);
    assert_eq!(c.settle_trade_discount, 2);
    assert_eq!(c.settle_military_power, 0);
    assert_eq!(c.settle_good_discounts.get(Some(Good::AlienTechnology)), -2);
    assert_eq!(c.settle_good_military.get(Some(Good::AlienTechnology)), 2);
    assert_eq!(c.settle_attr_military.get(Attribute::Rebel), 4);
    assert!(c.settle_can_convert_military_to_trade);
    assert_eq!(c.settle_conversion_discount, 1);
    assert_eq!(c.settle_discard_military, vec![(4usize, 3)]);
    assert_eq!(c.settle_discard_to_negate_trade_if_good, vec![(5usize, None)]);
}

#[test]
fn every_key_present_and_zero_by_default() {
    let t = sample_tableau();
    let c = aggregate(&t, 3);
    for g in [Good::Novelty, Good::RareElements, Good::Genes] {
        assert_eq!(c.settle_good_discounts.get(Some(g)), 0);
        assert_eq!(c.settle_good_military.get(Some(g)), 0);
    }
    assert_eq!(c.settle_good_discounts.get(None), 0);
    assert_eq!(c.settle_good_military.get(None), 0);
    for a in [Attribute::Alien, Attribute::Imperium, Attribute::Starter, Attribute::Uplift] {
        assert_eq!(c.settle_attr_military.get(a), 0);
    }
}

#[test]
fn aggregation_ignores_tableau_order() {
    let t = sample_tableau();
    let mut reversed = sample_tableau();
    reversed.reverse();
    let mut rotated = sample_tableau();
    rotated.rotate_left(3);
    let a = aggregate(&t, 6);
    assert_eq!(numbers(&a), numbers(&aggregate(&reversed, 6)));
    assert_eq!(numbers(&a), numbers(&aggregate(&rotated, 6)));
}

#[test]
fn aggregating_twice_gives_equal_capabilities() {
    let t = sample_tableau();
    let a = aggregate(&t, 2);
    let b = aggregate(&t, 2);
    assert_eq!(numbers(&a), numbers(&b));
    assert_eq!(a.settle_discard_military, b.settle_discard_military);
    assert_eq!(a.settle_discard_to_negate_trade_if_good, b.settle_discard_to_negate_trade_if_good);
}

#[test]
fn variants_list_every_value() {
    assert_eq!(
        Good::variants(),
        vec![Good::Novelty, Good::RareElements, Good::Genes, Good::AlienTechnology]
    );
    assert_eq!(Attribute::variants().len(), 5);
    assert_eq!(Attribute::variants()[2], Attribute::Rebel);
}
