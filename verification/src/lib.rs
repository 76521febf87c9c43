//! A rules engine for a turn-based social-deduction ("werewolf") game.
//!
//! The engine owns the authoritative game state: hidden role assignments,
//! the alive/dead partition of the player roster, day-phase vote
//! resolution, night-phase action resolution (kill intents, guarding,
//! inspections), and win-condition evaluation. Terminal input and
//! rendering live outside the engine and hand it already-validated
//! plain values.

pub mod night;
pub mod player;
pub mod role;
pub mod roster;
pub mod setup;
pub mod tally;
pub mod vote;
