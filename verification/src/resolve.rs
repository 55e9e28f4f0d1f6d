//! Task resolution: an attribute test or a skill test combines one two-die
//! roll with a modifier or resolved skill level against a target number,
//! yielding a signed margin. Nonnegative margins conventionally denote
//! success; callers interpret the margin.

use vstd::prelude::*;
use crate::sheet::{CharSheet, SheetModel};
use crate::skill::Skill;
use crate::stats::{Stat, stat_index_spec, stat_modifier};
use crate::ledger::resolved_level;

verus! {

/// The signed margin of a test.
pub type Effect = i16;

/// An attribute test: an ability identity and a target number.
#[derive(Clone, Copy, PartialEq, Eq, Structural, Debug)]
pub struct StatTest {
    pub stat: Stat,
    pub target: i8,
}

impl StatTest {
    /// The margin the test yields on a sheet for a given two-die roll:
    /// `modifier + roll - target`.
    pub open spec fn margin(self, s: SheetModel, roll: int) -> int {
        stat_modifier(s.stats[stat_index_spec(self.stat)] as int) + roll - self.target
    }

    /// Resolves the test with one two-die roll from the sheet's pool; no
    /// retries, and the sheet's state is untouched but for the pool. A
    /// scripted pool pins the roll, and so the margin, exactly.
    pub fn test(&self, sheet: &mut CharSheet) -> (e: Effect)
        requires
            old(sheet).wf(),
        ensures
            final(sheet).wf(),
            final(sheet)@ == old(sheet)@,
            self.margin(old(sheet)@, 2) <= e as int <= self.margin(old(sheet)@, 12),
            old(sheet).dice().is_scripted() ==> e as int == self.margin(
                old(sheet)@,
                old(sheet).dice().peek() + old(sheet).dice().advanced().peek(),
            ) && final(sheet).dice() == old(sheet).dice().advanced().advanced(),
            !old(sheet).dice().is_scripted() ==> !final(sheet).dice().is_scripted(),
    {
        let m = sheet.get_stat_mod(self.stat);
        let roll = sheet.twod6();
        m as i16 + roll as i16 - self.target as i16
    }
}

/// A skill test: a skill identity and a target number.
#[derive(Debug)]
pub struct SkillTest {
    pub skill: Skill,
    pub target: i8,
}

impl SkillTest {
    /// The margin the test yields on a sheet for a given two-die roll:
    /// `resolved skill level + roll - target`, with the ledger's fallback
    /// chain deciding the level.
    pub open spec fn margin(self, s: SheetModel, roll: int) -> int {
        resolved_level(s.skills, self.skill@) + roll - self.target
    }

    /// Resolves the test with one two-die roll from the sheet's pool; no
    /// retries, and the sheet's state is untouched but for the pool. A
    /// scripted pool pins the roll, and so the margin, exactly.
    pub fn test(&self, sheet: &mut CharSheet) -> (e: Effect)
        requires
            old(sheet).wf(),
        ensures
            final(sheet).wf(),
            final(sheet)@ == old(sheet)@,
            self.margin(old(sheet)@, 2) <= e as int <= self.margin(old(sheet)@, 12),
            old(sheet).dice().is_scripted() ==> e as int == self.margin(
                old(sheet)@,
                old(sheet).dice().peek() + old(sheet).dice().advanced().peek(),
            ) && final(sheet).dice() == old(sheet).dice().advanced().advanced(),
            !old(sheet).dice().is_scripted() ==> !final(sheet).dice().is_scripted(),
    {
        let lvl = sheet.get_skill(&self.skill);
        let roll = sheet.twod6();
        lvl as i16 + roll as i16 - self.target as i16
    }
}

} // verus!
