//! Deterministic game-logic core: frame-indexed state history, id generation,
//! random streams, the input event queue, physics layer rules and the
//! lifecycle of actions and AI tasks.

pub mod error;
pub mod ids;
pub mod base;
pub mod state;
pub mod history;
pub mod generation;
pub mod random;
pub mod input;
pub mod queue_steps;
pub mod layer;
pub mod contact;
pub mod action;
pub mod verify;
pub mod next_action;
pub mod save;
