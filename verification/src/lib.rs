//! A turn-based text-adventure engine.
//!
//! The engine consumes one line of free-text player input per turn and
//! deterministically produces a new immutable game snapshot together with
//! a system message to display.  The whole transition is specified by the
//! spec function [`engine::update_spec`] and implemented by
//! [`engine::update`]; [`laws`] proves the engine's general properties.

pub mod engine;
pub mod laws;
pub mod model;
pub mod text;
pub mod vocab;
pub mod world;

pub use engine::update;
pub use model::{Exit, GameState, Interactable, Item, ItemState, Room};
pub use text::{lowercase, split_words, str_eq};
pub use vocab::{determine_intent, is_direction, is_legal_command, text_to_direction, Direction,
    Intent};
pub use world::start_game;
