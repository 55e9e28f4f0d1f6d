//! The character sheet: the aggregate root owning the seven ability
//! scores, the skill ledger, cash, benefits, the ordered career history
//! and the die pool. All mutation goes through the sheet's operations, and
//! every table-row effect is interpreted by one routine whose behaviour is
//! given exactly by `apply_effect_spec`.

use vstd::prelude::*;
use crate::skill::{Skill, SkillKey, key_wf};
use crate::skill::BasicSkill;
use crate::ledger::{
    SkillLedger, SkillOutcome, ledger_inv, resolved_level, can_bump, inc_skill_spec, inc_skill_res,
    inc_skill_min_spec, inc_skill_min_res, set_skill_spec, set_skill_res, set_min_skill_spec,
    set_min_skill_res,
};
use crate::stats::{Stat, stat_index_spec, stat_modifier, modifier_of};
use crate::dice::DiePool;
use crate::table::{Benefit, RowEffect};
use crate::career::{Career, CareerAssign, CareerElem};
use crate::EngineError;

verus! {

/// The mathematical state of a character sheet: the scores, the ledger
/// contents, cash, the benefit grants in order of receipt, and the career
/// history. The die pool is tracked separately, by `CharSheet::dice`.
pub struct SheetModel {
    pub stats: Seq<u8>,
    pub skills: Map<SkillKey, int>,
    pub cash: int,
    pub benefits: Seq<Benefit>,
    pub career: Seq<CareerElem>,
}

/// The character sheet.
pub struct CharSheet {
    stats: Vec<u8>,
    skills: SkillLedger,
    career: Vec<CareerElem>,
    cash: i32,
    benefits: Vec<Benefit>,
    diepool: DiePool,
}

impl View for CharSheet {
    type V = SheetModel;

    closed spec fn view(&self) -> SheetModel {
        SheetModel {
            stats: self.stats@,
            skills: self.skills@,
            cash: self.cash as int,
            benefits: self.benefits@,
            career: self.career@,
        }
    }
}

/// A value clamped into the unsigned byte range, for score adjustments.
pub open spec fn clamp_u8(v: int) -> int {
    if v < 0 {
        0
    } else if v > 255 {
        255
    } else {
        v
    }
}

/// A value saturated at the cash bounds, for cash grants.
pub open spec fn sat_i32(v: int) -> int {
    if v < i32::MIN as int {
        i32::MIN as int
    } else if v > i32::MAX as int {
        i32::MAX as int
    } else {
        v
    }
}

/// The sheet state and outcome after applying one effect. Each plain
/// effect is a single atomic update: a cash grant saturates at the cash
/// bounds, a score adjustment clamps into the byte range, and a skill
/// increment follows `inc_skill_spec` (left in place at the machine level
/// bound rather than overflowing). A skill increment that needs the
/// specialism-selection collaborator, or that would corrupt the sibling
/// invariant, changes nothing and reports so. A pair applies its first
/// part, and its second only when the first applied cleanly.
pub open spec fn apply_effect_spec(s: SheetModel, e: RowEffect) -> (SheetModel, Result<
    SkillOutcome,
    EngineError,
>)
    decreases e,
{
    match e {
        RowEffect::Nothing => (s, Ok(SkillOutcome::Applied)),
        RowEffect::GrantCash(c) => (
            (SheetModel { cash: sat_i32(s.cash + c), ..s }),
            Ok(SkillOutcome::Applied),
        ),
        RowEffect::GrantBenefit(b) => (
            (SheetModel { benefits: s.benefits.push(b), ..s }),
            Ok(SkillOutcome::Applied),
        ),
        RowEffect::AdjustStat(st, d) => {
            let i = stat_index_spec(st);
            (
                (SheetModel { stats: s.stats.update(i, clamp_u8(s.stats[i] + d) as u8), ..s }),
                Ok(SkillOutcome::Applied),
            )
        }
        RowEffect::AdjustSkill(k) => {
            if !key_wf(k@) {
                (s, Err(EngineError::InvariantViolation))
            } else {
                let m2 = if can_bump(s.skills, k@) {
                    inc_skill_spec(s.skills, k@)
                } else {
                    s.skills
                };
                ((SheetModel { skills: m2, ..s }), inc_skill_res(s.skills, k@))
            }
        }
        RowEffect::Both(a, b) => {
            let fst = apply_effect_spec(s, *a);
            if fst.1 == Ok::<SkillOutcome, EngineError>(SkillOutcome::Applied) {
                apply_effect_spec(fst.0, *b)
            } else {
                fst
            }
        }
    }
}

/// Applying an effect never touches the career history.
pub proof fn lemma_apply_effect_career(s: SheetModel, e: RowEffect)
    ensures
        apply_effect_spec(s, e).0.career == s.career,
    decreases e,
{
    match e {
        RowEffect::Both(a, b) => {
            lemma_apply_effect_career(s, *a);
            let fst = apply_effect_spec(s, *a);
            if fst.1 == Ok::<SkillOutcome, EngineError>(SkillOutcome::Applied) {
                lemma_apply_effect_career(fst.0, *b);
            }
        }
        _ => {}
    }
}

impl CharSheet {
    /// Well-formedness: seven ability scores, a well-formed skill ledger,
    /// and a well-formed die pool.
    pub closed spec fn wf(self) -> bool {
        self.stats@.len() == 7 && self.skills.wf() && self.diepool.wf()
    }

    /// The sheet's die pool.
    pub closed spec fn dice(self) -> DiePool {
        self.diepool
    }

    /// A well-formed sheet has seven scores, and its ledger contents meet
    /// the cross-entry invariants.
    pub proof fn lemma_wf_model(self)
        requires
            self.wf(),
        ensures
            self@.stats.len() == 7,
            ledger_inv(self@.skills),
    {
    }

    /// A fresh sheet drawing from the given die pool: all scores 0, no
    /// skills, no cash, no benefits, no career history. Inject a scripted
    /// pool for deterministic generation.
    pub fn with_dice(dice: DiePool) -> (r: CharSheet)
        requires
            dice.wf(),
        ensures
            r.wf(),
            r@.stats =~= seq![0u8, 0u8, 0u8, 0u8, 0u8, 0u8, 0u8],
            r@.skills =~= Map::<SkillKey, int>::empty(),
            r@.cash == 0,
            r@.benefits =~= Seq::<Benefit>::empty(),
            r@.career =~= Seq::<CareerElem>::empty(),
            r.dice() == dice,
    {
        let mut stats: Vec<u8> = Vec::new();
        stats.push(0);
        stats.push(0);
        stats.push(0);
        stats.push(0);
        stats.push(0);
        stats.push(0);
        stats.push(0);
        proof {
            assert(stats@ =~= seq![0u8, 0u8, 0u8, 0u8, 0u8, 0u8, 0u8]);
        }
        CharSheet {
            stats,
            skills: SkillLedger::new(),
            career: Vec::new(),
            cash: 0,
            benefits: Vec::new(),
            diepool: dice,
        }
    }

    /// A fresh sheet drawing from the thread-local generator.
    pub fn new() -> (r: CharSheet)
        ensures
            r.wf(),
            r@.stats =~= seq![0u8, 0u8, 0u8, 0u8, 0u8, 0u8, 0u8],
            r@.skills =~= Map::<SkillKey, int>::empty(),
            r@.cash == 0,
            r@.benefits =~= Seq::<Benefit>::empty(),
            r@.career =~= Seq::<CareerElem>::empty(),
            !r.dice().is_scripted(),
    {
        CharSheet::with_dice(DiePool::new())
    }

    /// The raw score of an ability.
    pub fn get_stat(&self, stat: Stat) -> (v: u8)
        requires
            self.wf(),
        ensures
            v == self@.stats[stat_index_spec(stat)],
    {
        self.stats[stat.index()]
    }

    /// Overwrites the raw score of an ability.
    pub fn set_stat(&mut self, stat: Stat, val: u8)
        requires
            old(self).wf(),
        ensures
            final(self).wf(),
            final(self)@ == (SheetModel {
                stats: old(self)@.stats.update(stat_index_spec(stat), val),
                ..old(self)@
            }),
            final(self).dice() == old(self).dice(),
    {
        let i = stat.index();
        self.stats[i] = val;
    }

    /// The derived modifier of an ability: -3 at score 0, else
    /// `floor(score / 3) - 2`.
    pub fn get_stat_mod(&self, stat: Stat) -> (m: i8)
        requires
            self.wf(),
        ensures
            m as int == stat_modifier(self@.stats[stat_index_spec(stat)] as int),
    {
        modifier_of(self.stats[stat.index()])
    }

    /// One die from the sheet's pool: a value in [1, 6]; the sheet's state
    /// is otherwise untouched.
    pub fn d6(&mut self) -> (r: i8)
        requires
            old(self).wf(),
        ensures
            final(self).wf(),
            final(self)@ == old(self)@,
            1 <= r <= 6,
            old(self).dice().is_scripted() ==> r as int == old(self).dice().peek() && final(self).dice() == old(self).dice().advanced(),
            !old(self).dice().is_scripted() ==> !final(self).dice().is_scripted(),
    {
        self.diepool.d6()
    }

    /// Two dice from the sheet's pool: a value in [2, 12], the sum of two
    /// single draws; the sheet's state is otherwise untouched.
    pub fn twod6(&mut self) -> (r: i8)
        requires
            old(self).wf(),
        ensures
            final(self).wf(),
            final(self)@ == old(self)@,
            2 <= r <= 12,
            old(self).dice().is_scripted() ==> r as int == old(self).dice().peek() + old(self).dice().advanced().peek() && final(self).dice() == old(self).dice().advanced().advanced(),
            !old(self).dice().is_scripted() ==> !final(self).dice().is_scripted(),
    {
        self.diepool.twod6()
    }

    /// The resolved level of a skill identity, applying the ledger's
    /// fallback chain.
    pub fn get_skill(&self, skill: &Skill) -> (r: i8)
        requires
            self.wf(),
        ensures
            r as int == resolved_level(self@.skills, skill@),
    {
        self.skills.get_skill(skill)
    }

    /// The stored level of a skill identity, if a direct entry exists.
    pub fn level_of(&self, skill: &Skill) -> (r: Option<i8>)
        requires
            self.wf(),
        ensures
            match r {
                Some(v) => self@.skills.contains_key(skill@) && self@.skills[skill@] == v as int,
                None => !self@.skills.contains_key(skill@),
            },
    {
        self.skills.level_of(skill)
    }

    /// Directly overwrites a skill entry; see `set_skill_spec`.
    pub fn set_skill(&mut self, skill: Skill, val: i8) -> (r: Result<(), EngineError>)
        requires
            old(self).wf(),
            key_wf(skill@),
            0 <= val,
        ensures
            final(self).wf(),
            final(self)@ == (SheetModel {
                skills: set_skill_spec(old(self)@.skills, skill@, val as int),
                ..old(self)@
            }),
            r == set_skill_res(old(self)@.skills, skill@, val as int),
            final(self).dice() == old(self).dice(),
    {
        self.skills.set_skill(skill, val)
    }

    /// Raises a skill entry by one; see `inc_skill_spec`.
    pub fn inc_skill(&mut self, skill: Skill) -> (r: Result<SkillOutcome, EngineError>)
        requires
            old(self).wf(),
            key_wf(skill@),
            can_bump(old(self)@.skills, skill@),
        ensures
            final(self).wf(),
            final(self)@ == (SheetModel {
                skills: inc_skill_spec(old(self)@.skills, skill@),
                ..old(self)@
            }),
            r == inc_skill_res(old(self)@.skills, skill@),
            final(self).dice() == old(self).dice(),
    {
        self.skills.inc_skill(skill)
    }

    /// Raises a skill entry by one with a floor; see `inc_skill_min_spec`.
    pub fn inc_skill_min(&mut self, skill: Skill, minval: i8) -> (r: Result<
        SkillOutcome,
        EngineError,
    >)
        requires
            old(self).wf(),
            key_wf(skill@),
            0 <= minval,
            can_bump(old(self)@.skills, skill@),
        ensures
            final(self).wf(),
            final(self)@ == (SheetModel {
                skills: inc_skill_min_spec(old(self)@.skills, skill@, minval as int),
                ..old(self)@
            }),
            r == inc_skill_min_res(old(self)@.skills, skill@),
            final(self).dice() == old(self).dice(),
    {
        self.skills.inc_skill_min(skill, minval)
    }

    /// Raises a skill entry to a minimum; see `set_min_skill_spec`.
    pub fn set_min_skill(&mut self, skill: Skill, val: i8) -> (r: Result<
        SkillOutcome,
        EngineError,
    >)
        requires
            old(self).wf(),
            key_wf(skill@),
            0 <= val,
        ensures
            final(self).wf(),
            final(self)@ == (SheetModel {
                skills: set_min_skill_spec(old(self)@.skills, skill@, val as int),
                ..old(self)@
            }),
            r == set_min_skill_res(old(self)@.skills, skill@, val as int),
            final(self).dice() == old(self).dice(),
    {
        self.skills.set_min_skill(skill, val)
    }

    /// The specialism strings already recorded for a name, for the
    /// specialism-selection collaborator to offer.
    pub fn existing_specialisms(&self, name: BasicSkill) -> (r: Vec<String>)
        ensures
            forall|i: int|
                0 <= i < r@.len() ==> self@.skills.contains_key(
                    crate::skill::spec_key(name, #[trigger] r@[i]@),
                ),
            forall|t: Seq<char>|
                #[trigger] self@.skills.contains_key(crate::skill::spec_key(name, t))
                    ==> exists|i: int| 0 <= i < r@.len() && r@[i]@ == t,
    {
        self.skills.existing_specialisms(name)
    }

    /// The sheet's cash.
    pub fn get_cash(&self) -> (c: i32)
        ensures
            c as int == self@.cash,
    {
        self.cash
    }

    /// How many benefit grants the sheet holds.
    pub fn benefit_count(&self) -> (n: usize)
        ensures
            n == self@.benefits.len(),
    {
        self.benefits.len()
    }

    /// The benefit grant at a position, in order of receipt.
    pub fn benefit_at(&self, i: usize) -> (b: Benefit)
        requires
            i < self@.benefits.len(),
        ensures
            b == self@.benefits[i as int],
    {
        self.benefits[i]
    }

    /// How many career history entries the sheet holds.
    pub fn career_len(&self) -> (n: usize)
        ensures
            n == self@.career.len(),
    {
        self.career.len()
    }

    /// The career history entry at a position, oldest first.
    pub fn career_at(&self, i: usize) -> (e: CareerElem)
        requires
            i < self@.career.len(),
        ensures
            e == self@.career[i as int],
    {
        self.career[i]
    }

    /// Starts a career: appends a history entry for the chosen career and
    /// assignment track, uncommissioned at rank 0. History entries are
    /// never removed.
    pub fn begin_career(&mut self, career: Career, assignment: CareerAssign)
        requires
            old(self).wf(),
        ensures
            final(self).wf(),
            final(self)@ == (SheetModel {
                career: old(self)@.career.push(
                    CareerElem { career, assignment, commissioned: false, rank: 0u8 },
                ),
                ..old(self)@
            }),
            final(self).dice() == old(self).dice(),
    {
        self.career.push(CareerElem { career, assignment, commissioned: false, rank: 0 });
    }

    /// Raises the rank recorded in the newest career history entry.
    pub fn promote_last(&mut self)
        requires
            old(self).wf(),
            old(self)@.career.len() > 0,
            old(self)@.career.last().rank < 255,
        ensures
            final(self).wf(),
            final(self)@ == (SheetModel {
                career: old(self)@.career.update(
                    old(self)@.career.len() - 1,
                    (CareerElem {
                        rank: (old(self)@.career.last().rank + 1) as u8,
                        ..old(self)@.career.last()
                    }),
                ),
                ..old(self)@
            }),
            final(self).dice() == old(self).dice(),
    {
        let n = self.career.len();
        let e = self.career[n - 1];
        self.career[n - 1] = CareerElem { rank: e.rank + 1, ..e };
    }

    /// Marks the newest career history entry as commissioned.
    pub fn commission_last(&mut self)
        requires
            old(self).wf(),
            old(self)@.career.len() > 0,
        ensures
            final(self).wf(),
            final(self)@ == (SheetModel {
                career: old(self)@.career.update(
                    old(self)@.career.len() - 1,
                    (CareerElem { commissioned: true, ..old(self)@.career.last() }),
                ),
                ..old(self)@
            }),
            final(self).dice() == old(self).dice(),
    {
        let n = self.career.len();
        let e = self.career[n - 1];
        self.career[n - 1] = CareerElem { commissioned: true, ..e };
    }

    /// Applies one data-described table-row effect to the sheet, exactly
    /// as `apply_effect_spec` describes: each plain effect is atomic, and
    /// an effect that needs the specialism-selection collaborator reports
    /// `NeedsSpecialism` without mutating, so the caller can resolve the
    /// identity and apply the resolved operation instead.
    pub fn apply_effect(&mut self, e: &RowEffect) -> (r: Result<SkillOutcome, EngineError>)
        requires
            old(self).wf(),
        ensures
            final(self).wf(),
            final(self)@ == apply_effect_spec(old(self)@, *e).0,
            r == apply_effect_spec(old(self)@, *e).1,
            final(self).dice() == old(self).dice(),
        decreases *e,
    {
        match e {
            RowEffect::Nothing => Ok(SkillOutcome::Applied),
            RowEffect::GrantCash(c) => {
                self.cash = match self.cash.checked_add(*c) {
                    Some(v) => v,
                    None => if *c >= 0 {
                        i32::MAX
                    } else {
                        i32::MIN
                    },
                };
                Ok(SkillOutcome::Applied)
            }
            RowEffect::GrantBenefit(b) => {
                self.benefits.push(*b);
                Ok(SkillOutcome::Applied)
            }
            RowEffect::AdjustStat(st, d) => {
                let i = st.index();
                let cur = self.stats[i];
                let t: i16 = cur as i16 + *d as i16;
                let nv: u8 = if t < 0 {
                    0
                } else if t > 255 {
                    255
                } else {
                    t as u8
                };
                self.stats[i] = nv;
                Ok(SkillOutcome::Applied)
            }
            RowEffect::AdjustSkill(k) => {
                let key_ok = match k.specialism() {
                    Some(_) => k.name().is_specializable(),
                    None => true,
                };
                if !key_ok {
                    Err(EngineError::InvariantViolation)
                } else {
                    let bumpable = match self.skills.level_of(k) {
                        Some(v) => v < i8::MAX,
                        None => true,
                    };
                    if bumpable {
                        self.skills.inc_skill(k.clone())
                    } else {
                        match k.specialism() {
                            Some(_) => Ok(SkillOutcome::Applied),
                            None => {
                                if k.name().is_specializable() {
                                    Err(EngineError::InvariantViolation)
                                } else {
                                    Ok(SkillOutcome::Applied)
                                }
                            }
                        }
                    }
                }
            }
            RowEffect::Both(a, b) => {
                let r1 = self.apply_effect(&**a);
                match r1 {
                    Ok(SkillOutcome::Applied) => self.apply_effect(&**b),
                    other => other,
                }
            }
        }
    }
}

} // verus!
