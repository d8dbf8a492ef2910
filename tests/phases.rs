use rftg::{
    affordable, positions_of_type, Answer, Attribute, Card, CardType, Cost, Game, Good, Phase,
    Player, Power, Production, Step,
};

fn world(name: &str) -> Card {
    Card::new(name)
}

fn development(name: &str, cost: i32) -> Card {
    Card::new(name).card_type(CardType::Development).trade_cost(cost)
}

fn names(cards: &[Card]) -> Vec<String> {
    cards.iter().map(|c| c.name.clone()).collect()
}

fn piles(draw: &[&str]) -> Game {
    Game { draw_pile: draw.iter().map(|n| world(n)).collect(), discard_pile: vec![] }
}

#[test]
fn explore_keeps_one_of_three() {
    let mut game = piles(&["a", "b", "c", "d"]);
    let mut player = Player::new();
    player.tableau.push(development("Expedition Force", 1).add_power(Power::ExploreSeeBonus(1)));
    assert!(player.is_ready(&game, Phase::Explore));
    let step = player.act(&mut game, Phase::Explore);
    let (revealed, keep) = match &step {
        Step::Explore { revealed, keep } => (names(revealed), *keep),
        _ => panic!("expected an explore decision"),
    };
    assert_eq!(revealed, vec!["d", "c", "b"]);
    assert_eq!(keep, 1);
    let step = player.resume(&mut game, step, Answer::Many(vec![1]));
    assert!(matches!(step, Step::Done));
    assert_eq!(names(&player.hand), vec!["c"]);
    assert_eq!(names(&game.discard_pile), vec!["d", "b"]);
    assert_eq!(names(&game.draw_pile), vec!["a"]);
}

#[test]
fn explore_asks_again_on_a_bad_selection() {
    let mut game = piles(&["a", "b", "c"]);
    let mut player = Player::new();
    let step = player.act(&mut game, Phase::Explore);
    let step = player.resume(&mut game, step, Answer::Many(vec![0, 1]));
    assert!(matches!(step, Step::Explore { keep: 1, .. }));
    let step = player.resume(&mut game, step, Answer::Many(vec![2]));
    assert!(matches!(step, Step::Explore { keep: 1, .. }));
    let step = player.resume(&mut game, step, Answer::One(Some(0)));
    assert!(matches!(step, Step::Explore { keep: 1, .. }));
    let step = player.resume(&mut game, step, Answer::Many(vec![0]));
    assert!(matches!(step, Step::Done));
    assert_eq!(names(&player.hand), vec!["c"]);
    assert_eq!(names(&game.discard_pile), vec!["b"]);
}

#[test]
fn explore_with_nothing_to_keep_discards_all() {
    let mut game = piles(&["a", "b", "c"]);
    let mut player = Player::new();
    player.tableau.push(development("Blind", 1).add_power(Power::ExploreKeepBonus(-1)));
    let step = player.act(&mut game, Phase::Explore);
    assert!(matches!(step, Step::Done));
    assert!(player.hand.is_empty());
    assert_eq!(names(&game.discard_pile), vec!["c", "b"]);
}

#[test]
fn explore_not_ready_without_cards() {
    let game = piles(&["a"]);
    let player = Player::new();
    assert!(!player.is_ready(&game, Phase::Explore));
    assert!(player.is_ready(&game, Phase::Settle));
}

#[test]
fn develop_pays_two_cards_for_a_trade_two_development() {
    let mut game = piles(&[]);
    let mut player = Player::new();
    player.hand = vec![world("w1"), development("Space Marines", 2), world("w2"), world("w3")];
    let step = player.act(&mut game, Phase::Develop);
    assert!(matches!(step, Step::Develop { trade_power: 3, discount: 0 }));
    assert_eq!(positions_of_type(&player.hand, CardType::Development), vec![1]);
    let step = player.resume(&mut game, step, Answer::One(Some(0)));
    assert!(matches!(step, Step::Pay { price: 2 }));
    assert_eq!(names(&player.tableau), vec!["Space Marines"]);
    assert_eq!(names(&player.hand), vec!["w1", "w2", "w3"]);
    let step = player.resume(&mut game, step, Answer::Many(vec![2, 0]));
    assert!(matches!(step, Step::Done));
    assert_eq!(names(&player.hand), vec!["w2"]);
    assert_eq!(names(&game.discard_pile), vec!["w1", "w3"]);
}

#[test]
fn develop_refuses_an_unaffordable_card() {
    let mut game = piles(&[]);
    let mut player = Player::new();
    player.hand = vec![development("Galactic Federation", 6), world("w1")];
    let step = player.act(&mut game, Phase::Develop);
    assert!(matches!(step, Step::Develop { trade_power: 1, discount: 0 }));
    let step = player.resume(&mut game, step, Answer::One(Some(0)));
    assert!(matches!(step, Step::Develop { trade_power: 1, discount: 0 }));
    let step = player.resume(&mut game, step, Answer::One(Some(5)));
    assert!(matches!(step, Step::Develop { .. }));
    let step = player.resume(&mut game, step, Answer::One(None));
    assert!(matches!(step, Step::Done));
    assert!(player.tableau.is_empty());
    assert_eq!(player.hand.len(), 2);
}

#[test]
fn develop_draws_first_and_applies_the_discount() {
    let mut game = piles(&["x", "y"]);
    let mut player = Player::new();
    player.tableau.push(
        development("Interstellar Bank", 2)
            .add_power(Power::DevelopDraw(1))
            .add_power(Power::DevelopDiscount(1)),
    );
    player.hand = vec![development("Investment Credits", 3), world("w1")];
    let step = player.act(&mut game, Phase::Develop);
    assert_eq!(names(&player.hand), vec!["Investment Credits", "w1", "y"]);
    assert!(matches!(step, Step::Develop { trade_power: 3, discount: 1 }));
    let step = player.resume(&mut game, step, Answer::One(Some(0)));
    assert!(matches!(step, Step::Pay { price: 2 }));
    let step = player.resume(&mut game, step, Answer::Many(vec![0]));
    assert!(matches!(step, Step::Pay { price: 2 }));
    let step = player.resume(&mut game, step, Answer::Many(vec![1, 1]));
    assert!(matches!(step, Step::Pay { price: 2 }));
    let step = player.resume(&mut game, step, Answer::Many(vec![0, 1]));
    assert!(matches!(step, Step::Done));
    assert!(player.hand.is_empty());
    assert_eq!(names(&game.discard_pile), vec!["w1", "y"]);
}

#[test]
fn develop_of_a_free_card_costs_nothing() {
    let mut game = piles(&[]);
    let mut player = Player::new();
    player.hand = vec![Card::new("Gift").card_type(CardType::Development)];
    let step = player.act(&mut game, Phase::Develop);
    let step = player.resume(&mut game, step, Answer::One(Some(0)));
    assert!(matches!(step, Step::Done));
    assert_eq!(names(&player.tableau), vec!["Gift"]);
}

#[test]
fn military_three_world_needs_military_three() {
    let mut game = piles(&[]);
    let mut player = Player::new();
    player.tableau.push(development("Drop Ships", 4).add_power(Power::SettleMilitaryBonus(2)));
    player.hand = vec![world("Rebel Warrior Race").military_cost(3)];
    let step = player.act(&mut game, Phase::Settle);
    let step = player.resume(&mut game, step, Answer::One(Some(0)));
    assert!(matches!(step, Step::Settle { .. }));
    assert!(player.tableau.len() == 1);
    player.tableau.push(development("Space Marines", 2).add_power(Power::SettleMilitaryBonus(1)));
    let step = player.act(&mut game, Phase::Settle);
    let step = player.resume(&mut game, step, Answer::One(Some(0)));
    assert!(matches!(step, Step::Done));
    assert_eq!(player.tableau[2].name, "Rebel Warrior Race");
    assert!(player.hand.is_empty());
}

#[test]
fn trade_world_is_not_bought_with_military() {
    let mut game = piles(&[]);
    let mut player = Player::new();
    player.tableau.push(development("New Galactic Order", 6).add_power(Power::SettleMilitaryBonus(5)));
    player.hand = vec![world("Blaster Gem Mines").trade_cost(3)];
    let step = player.act(&mut game, Phase::Settle);
    let step = player.resume(&mut game, step, Answer::One(Some(0)));
    assert!(matches!(step, Step::Settle { .. }));
    assert!(player.tableau.len() == 1);
    assert!(!affordable(&Cost::trade(3), 0, 5));
    assert!(affordable(&Cost::military(3), 0, 3));
    assert!(!affordable(&Cost::military(3), 10, 2));
    assert!(affordable(&Cost::free(), -1, -1));
}

#[test]
fn settle_trade_world_pays_with_cards() {
    let mut game = piles(&[]);
    let mut player = Player::new();
    player.tableau.push(development("Replicant Robots", 4).add_power(Power::SettleTradeDiscount(1)));
    player.hand = vec![world("h1"), world("Asteroid Belt").trade_cost(2), world("h2")];
    let step = player.act(&mut game, Phase::Settle);
    let step = player.resume(&mut game, step, Answer::One(Some(1)));
    assert!(matches!(step, Step::Pay { price: 1 }));
    let step = player.resume(&mut game, step, Answer::Many(vec![1]));
    assert!(matches!(step, Step::Done));
    assert_eq!(names(&player.hand), vec!["h1"]);
    assert_eq!(names(&game.discard_pile), vec!["h2"]);
}

#[test]
fn settle_applies_good_and_attribute_bonuses() {
    let mut game = piles(&[]);
    let mut player = Player::new();
    player.tableau.push(
        development("Galactic Imperium", 6)
            .add_power(Power::SettleMilitaryIfAttribute(4, Attribute::Rebel))
            .add_power(Power::SettleDiscountIfGood(1, Some(Good::RareElements))),
    );
    player.hand = vec![
        world("Rebel Outpost").military_cost(4).add_attribute(Attribute::Rebel),
        world("Alpha Centauri").trade_cost(2).produces(Production::Windfall, Good::RareElements),
        world("h"),
    ];
    let step = player.act(&mut game, Phase::Settle);
    let step = player.resume(&mut game, step, Answer::One(Some(0)));
    assert!(matches!(step, Step::Done));
    let step = player.act(&mut game, Phase::Settle);
    let step = player.resume(&mut game, step, Answer::One(Some(0)));
    assert!(matches!(step, Step::Pay { price: 1 }));
    let step = player.resume(&mut game, step, Answer::Many(vec![0]));
    assert!(matches!(step, Step::Done));
    assert_eq!(names(&player.tableau), vec!["Galactic Imperium", "Rebel Outpost", "Alpha Centauri"]);
    assert!(player.hand.is_empty());
    assert_eq!(names(&game.discard_pile), vec!["h"]);
}

#[test]
fn settle_of_a_free_world_costs_nothing() {
    let mut game = piles(&[]);
    let mut player = Player::new();
    player.hand = vec![world("Refugee World")];
    let step = player.act(&mut game, Phase::Settle);
    let step = player.resume(&mut game, step, Answer::One(Some(0)));
    assert!(matches!(step, Step::Done));
}

#[test]
fn military_development_in_hand_is_flagged() {
    let mut player = Player::new();
    player.hand = vec![Card::new("Odd").card_type(CardType::Development).military_cost(1)];
    assert!(!player.hand_is_well_formed());
    player.hand = vec![development("Fine", 1)];
    assert!(player.hand_is_well_formed());
}

#[test]
fn steps_fit_the_hand_they_were_made_for() {
    let mut game = piles(&[]);
    let mut player = Player::new();
    player.hand = vec![world("a"), world("b")];
    let step = player.act(&mut game, Phase::Develop);
    assert!(player.fits(&step));
    player.hand.pop();
    assert!(!player.fits(&step));
}

#[test]
fn draw_up_to_fills_the_hand() {
    let mut game = piles(&["a", "b", "c", "d"]);
    let mut player = Player::new();
    player.draw_up_to(&mut game, 3);
    assert_eq!(names(&player.hand), vec!["d", "c", "b"]);
    player.draw_up_to(&mut game, 2);
    assert_eq!(player.hand.len(), 3);
    assert_eq!(game.draw_pile.len(), 1);
}

#[test]
fn explore_leaves_the_old_discard_pile_underneath() {
    let mut game = piles(&["a", "b", "c", "d"]);
    game.discard_pile.push(world("old"));
    let mut player = Player::new();
    player.tableau.push(development("Expedition Force", 1).add_power(Power::ExploreSeeBonus(1)));
    let step = player.act(&mut game, Phase::Explore);
    assert_eq!(names(&game.draw_pile), vec!["a"]);
    assert_eq!(names(&game.discard_pile), vec!["old"]);
    let step = player.resume(&mut game, step, Answer::Many(vec![0]));
    assert!(matches!(step, Step::Done));
    assert_eq!(names(&player.hand), vec!["d"]);
    assert_eq!(names(&game.discard_pile), vec!["old", "c", "b"]);
}

#[test]
fn oversized_payment_does_not_fit_the_hand() {
    let mut player = Player::new();
    player.hand = vec![world("a")];
    assert!(player.fits(&Step::Pay { price: 1 }));
    assert!(!player.fits(&Step::Pay { price: 2 }));
}
