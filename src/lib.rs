//! Rules engine for a tableau-building card game: the cost model, the
//! aggregation of card powers into capabilities, and the phase resolver
//! that turns a player's choices into moves between hand, tableau and piles.

pub mod capabilities;
pub mod cards;
pub mod catalog;
pub mod cost;
pub mod describe;
pub mod game;
pub mod laws;
pub mod player;
pub mod selection;
pub mod utils;

pub use capabilities::{aggregate, AttributeTable, Capabilities, GoodTable, WEIGHT_LIMIT};
pub use cards::{Attribute, Card, CardType, Condition, Good, Points, Power, PowerType, Production};
pub use catalog::{get_cards, CATALOG_SIZE};
pub use cost::Cost;
pub use game::{Game, Phase};
pub use player::{affordable, positions_of_type, tableau_within_limit, Answer, Player, Step};
pub use selection::is_valid_selection;
pub use utils::{Contains, Variants};
