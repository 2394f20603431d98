//! A two-player grid combat game: boards, fleet placement, attack
//! resolution with a one-time area missile, and the turn coordinator.

pub mod attack;
pub mod board;
pub mod error;
pub mod fleet;
pub mod game;
pub mod input;
pub mod placement;
pub mod render;
pub mod setup;
pub mod token;

pub use crate::attack::{play_turn, AttackOutcome};
pub use crate::board::{create_board, Board, Cell};
pub use crate::error::GameError;
pub use crate::fleet::{fleet, ShipKind};
pub use crate::game::{Game, GameState, Player};
pub use crate::input::{parse_board_size, parse_coordinates, parse_placement};
pub use crate::placement::{check_placement, place_ship, Orientation, Placement};
pub use crate::render::display_board;
pub use crate::setup::place_all_ships;
pub use crate::token::{place_missile_token, place_token_at};
