//! Five-card-draw poker: a shuffled 52-card deck, a dealt hand, a
//! redraw from a keep-selection, and a fixed-priority hand evaluator
//! that pays a multiplier of the bet.

pub mod card;
pub mod deck;
pub mod eval;
pub mod game;
