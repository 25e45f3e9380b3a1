//! A deterministic tower-defence simulation core.
//!
//! Every quantity is an integer count of thousandths ([`fixed::SCALE`]):
//! positions in thousandths of a distance unit, durations in milliseconds,
//! speeds in thousandths of a distance unit per second, places on the
//! screen in thousandths of its width and height. Nothing is rounded but
//! where a contract says so, and a result that would leave the range of
//! `i64` saturates at its bounds.

pub mod deck;
pub mod elixir_bar;
pub mod entities;
pub mod fixed;
pub mod game;
pub mod laws;
pub mod rules;
pub mod search;

pub use deck::{ButtonState, Deck, DeckLayout, DeckView, Drag, LayoutError};
pub use elixir_bar::ElixirBar;
pub use entities::{card_index, Card, Player, Tower, Unit, Vec2D};
pub use fixed::SCALE;
pub use game::{GameState, GameView};
