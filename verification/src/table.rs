//! Career tables: an offset-indexed, fixed-order sequence of rows, each
//! carrying an opaque text label and a data-described effect on the
//! character sheet. A roll maps to the row at `roll - offset`; a roll that
//! maps to no row is a configuration error, reported and never clamped.

use vstd::prelude::*;
use crate::skill::Skill;
use crate::stats::Stat;
use crate::EngineError;

verus! {

/// A mustering-out or table-granted benefit; duplicates are allowed in a
/// sheet's benefit collection.
#[derive(Clone, Copy, PartialEq, Eq, Structural, Debug)]
pub enum Benefit {
    CASH(i32),
    Armour,
    Ally,
    Blade,
    CharInc(Stat),
    CyberImplant,
    Contact,
    FreeTrader,
    Gun,
    LabShip,
    PersonalVehicle,
    ScienceEquip,
    ScoutShip,
    ShipsBoat,
    ShipShares(i8),
    Weapon,
    TASMember,
    Yacht,
}

/// A data-described mutation that a table row applies to the character
/// sheet: a cash grant, a benefit grant, an ability adjustment, a skill
/// increment, a pair applied in order, or nothing. Describing effects as
/// data keeps tables constructible and testable as plain values.
pub enum RowEffect {
    GrantCash(i32),
    GrantBenefit(Benefit),
    AdjustStat(Stat, i8),
    AdjustSkill(Skill),
    Both(Box<RowEffect>, Box<RowEffect>),
    Nothing,
}

/// One table row: an opaque text label and the effect it applies.
pub struct Row {
    pub txt: String,
    pub effect: RowEffect,
}

/// An offset-indexed table of rows.
pub struct Table {
    pub offset: i8,
    pub rows: Vec<Row>,
}

/// Whether a roll maps to a row of the table.
pub open spec fn roll_in_table(t: Table, roll: int) -> bool {
    t.offset <= roll && roll - t.offset < t.rows@.len()
}

impl Table {
    /// The row a roll maps to. Rolls `offset`, `offset + 1`, ... map to
    /// the rows in their stored order; a roll below the offset or at or
    /// past the end maps to no row and is reported as a configuration
    /// error, never clamped.
    pub fn row_for(&self, roll: i8) -> (r: Result<&Row, EngineError>)
        ensures
            match r {
                Ok(row) => roll_in_table(*self, roll as int) && *row == self.rows@[roll
                    - self.offset],
                Err(e) => e == EngineError::RollOutOfRange && !roll_in_table(*self, roll as int),
            },
    {
        if roll >= self.offset {
            let idx = (roll as i16 - self.offset as i16) as usize;
            if idx < self.rows.len() {
                Ok(&self.rows[idx])
            } else {
                Err(EngineError::RollOutOfRange)
            }
        } else {
            Err(EngineError::RollOutOfRange)
        }
    }
}

} // verus!
