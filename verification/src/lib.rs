//! A verified character-generation engine for a dice-driven role-playing
//! ruleset: ability scores with derived modifiers, a skill ledger that keeps
//! the invariants between basic skills and their named specialisms, task
//! resolution against two-die rolls, offset-indexed career tables whose rows
//! carry data-described effects, and the per-term career progression steps.

use vstd::prelude::*;

pub mod career;
pub mod dice;
pub mod ledger;
pub mod resolve;
pub mod sheet;
pub mod skill;
pub mod stats;
pub mod table;

verus! {

/// The failures the engine can surface.
///
/// `InvariantViolation` marks a mutation that would corrupt the skill
/// ledger (a specialised entry beside a nonzero basic entry of the same
/// name); `RollOutOfRange` marks a roll that maps to no row of a table,
/// which is a configuration error of the table content, never clamped.
#[derive(Clone, Copy, PartialEq, Eq, Structural, Debug)]
pub enum EngineError {
    InvariantViolation,
    RollOutOfRange,
}

} // verus!
