use rftg::{get_cards, Card, CardType, Contains, Cost, Game, Phase, Variants, CATALOG_SIZE};

#[test]
fn draw_takes_the_top_card() {
    let mut game = Game { draw_pile: vec![Card::new("a"), Card::new("b")], discard_pile: vec![] };
    assert_eq!(game.draw().name, "b");
    assert_eq!(game.draw().name, "a");
}

#[test]
fn draw_reshuffles_the_discard_pile() {
    let mut game = Game { draw_pile: vec![], discard_pile: vec![] };
    game.discard(Card::new("x"));
    assert_eq!(game.card_count(), 1);
    assert_eq!(game.draw().name, "x");
    assert!(game.draw_pile.is_empty());
    assert!(game.discard_pile.is_empty());
}

#[test]
fn new_game_shuffles_the_catalog() {
    let cards = get_cards();
    let before: Vec<String> = cards.iter().map(|c| c.name.clone()).collect();
    let game = Game::new(cards);
    assert!(game.discard_pile.is_empty());
    let after: Vec<String> = game.draw_pile.iter().map(|c| c.name.clone()).collect();
    assert_ne!(after, before);
    let mut a = after.clone();
    let mut b = before.clone();
    a.sort();
    b.sort();
    assert_eq!(a, b);
}

#[test]
fn catalog_holds_every_card() {
    let cards = get_cards();
    assert_eq!(cards.len(), CATALOG_SIZE);
    assert_eq!(cards.len(), 40);
    for c in &cards {
        assert!(!(c.card_type == CardType::Development && c.cost.is_military()));
    }
    assert_eq!(cards[0].name, "Alien Tech Institute");
    assert_eq!(cards[0].card_type, CardType::Development);
    assert_eq!(cards[0].cost, Cost::Trade(6));
    for c in &cards {
        assert!(c.cost.magnitude_value() >= 0);
    }
    let mut names: Vec<String> = cards.iter().map(|c| c.name.clone()).collect();
    names.sort();
    names.dedup();
    assert_eq!(names.len(), 40);
    assert_eq!(cards[39].name, "Space Marines");
}

#[test]
fn cards_describe_themselves_on_one_line() {
    let cards = get_cards();
    assert_eq!(
        cards[2].describe(),
        "Alien Robot Sentry (World - 2 military) {2 VPs} Windfall: AlienTechnology"
    );
    assert_eq!(
        cards[0].describe(),
        "Alien Tech Institute <Development - 6 trade> {?? VPs} \
         SettleDiscountIfGood(-2, Some(AlienTechnology)) \
         SettleMilitaryIfGood(2, Some(AlienTechnology))"
    );
    assert_eq!(
        Card::new("Nothing").describe(),
        "Nothing (World - free)"
    );
    let refugee = cards.iter().find(|c| c.name == "Refugee World").unwrap();
    assert_eq!(
        refugee.describe(),
        "Refugee World (World - free) {1 VPs} Windfall: Novelty SettleMilitaryBonus(-1)"
    );
    let colony = cards.iter().find(|c| c.name == "Colony Ship").unwrap();
    assert_eq!(
        colony.describe(),
        "Colony Ship <Development - 2 trade> {1 VPs} SettleDiscardToNegateTradeIfGood(None)"
    );
    let imperium = cards.iter().find(|c| c.name == "Galactic Imperium").unwrap();
    assert!(imperium.describe().ends_with("SettleMilitaryIfAttribute(4, Rebel)"));
}

#[test]
fn phases_have_names() {
    assert_eq!(Phase::variants(), vec![Phase::Explore, Phase::Develop, Phase::Settle]);
    assert_eq!(Phase::Settle.name(), "Settle");
    assert_eq!(Phase::Explore.name(), "Explore");
}

#[test]
fn contains_tests_ranges_and_lists() {
    assert!(Contains::contains(&(1usize..4), &3));
    assert!(!Contains::contains(&(1usize..4), &4));
    let v = vec![2usize, 5];
    assert!(Contains::contains(&&v, &5));
    assert!(!Contains::contains(&&v, &3));
}

#[test]
fn drawing_takes_cards_off_the_draw_pile_only() {
    let mut game = Game {
        draw_pile: vec![Card::new("a"), Card::new("b"), Card::new("c")],
        discard_pile: vec![Card::new("old")],
    };
    let drawn = game.draw();
    assert_eq!(drawn.name, "c");
    assert_eq!(game.draw_pile.len(), 2);
    assert_eq!(game.discard_pile.len(), 1);
    assert_eq!(game.discard_pile[0].name, "old");
}
