//! Core rules of a turn-based frontier adventure: dice-valued quantities, the
//! player's resource ledger, lane-based battles and the encounter interpreter.

mod chance;
pub mod dice_value;
pub mod player;
pub mod battle;
pub mod combat;
pub mod encounter;
pub mod encounters;
pub mod ui;
pub mod flow;
