//! Progression engine of an idle game.
//!
//! A player works at a timed [`activity`]; every full cycle of it pays
//! experience to [`job`]s, which climb a level-up curve, and items into the
//! [`inventory`]. A [`quest`] measures a goal on the player as they are and
//! pays its reward once. [`game`] holds the state of a game in play and says
//! what a frame, a click and a return after time away do to it.
//!
//! Time is counted in whole ticks. Every operation that can fail says so in
//! its result with a [`error::GameError`]; none panics.

pub mod activity;
pub mod constants;
pub mod error;
pub mod game;
pub mod game_state;
pub mod inventory;
pub mod item;
pub mod job;
pub mod player;
pub mod quest;
pub mod save;
pub mod ui;
pub mod utils;
