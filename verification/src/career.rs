//! Careers: the fixed career catalog, assignment tracks, the per-career
//! page of tables, and the per-term progression steps that drive a sheet
//! through qualification, survival, advancement, training and events.

use vstd::prelude::*;
use crate::sheet::{CharSheet, SheetModel, apply_effect_spec};
use crate::table::{Table, roll_in_table};
use crate::resolve::{Effect, StatTest};
use crate::ledger::SkillOutcome;
use crate::EngineError;

verus! {

/// The fixed career catalog; entries after the `LAST` sentinel are the
/// pre-career and special tracks.
#[derive(Clone, Copy, PartialEq, Eq, Structural, Debug)]
pub enum Career {
    Agent,
    Army,
    Citizen,
    Drifter,
    Entertainer,
    Marine,
    Merchant,
    Navy,
    Noble,
    Rogue,
    Scholar,
    Scout,
    LAST,
    Psionic,
    PreUniversity,
    PreMilitary,
}

/// One of the three assignment tracks of a career.
#[derive(Clone, Copy, PartialEq, Eq, Structural, Debug)]
pub enum CareerAssign {
    One,
    Two,
    Three,
}

/// The position of an assignment track inside a career's track arrays.
pub open spec fn assign_index_spec(a: CareerAssign) -> int {
    match a {
        CareerAssign::One => 0,
        CareerAssign::Two => 1,
        CareerAssign::Three => 2,
    }
}

impl CareerAssign {
    /// The position of this track inside a career's track arrays.
    pub fn index(self) -> (i: usize)
        ensures
            i as int == assign_index_spec(self),
            i < 3,
    {
        match self {
            CareerAssign::One => 0,
            CareerAssign::Two => 1,
            CareerAssign::Three => 2,
        }
    }
}

/// One entry of the career history: which career was entered, on which
/// assignment track, whether a commission was gained, and the current
/// rank. Entries are appended when a career is entered, mutated in place
/// while serving, and never removed.
#[derive(Clone, Copy, PartialEq, Eq, Structural, Debug)]
pub struct CareerElem {
    pub career: Career,
    pub assignment: CareerAssign,
    pub commissioned: bool,
    pub rank: u8,
}

/// The tables a career page groups for per-term skill training: one table
/// for each assignment track, personal development, advanced education,
/// service skills, and the commission table where the career offers one.
pub struct SkillsAndTraining {
    pub assignment: Vec<Table>,
    pub pd: Table,
    pub adv: Table,
    pub service: Table,
    pub commissioned: Option<Table>,
}

/// One career's page of content: its qualification test, the three
/// assignment tracks with their survival and advancement tests, the
/// skills-and-training tables, and the ranks, mishaps and events tables.
/// The content provider fills the rows; the engine only maps rolls to rows
/// and applies their effects.
pub struct CareerPage {
    pub qualification: StatTest,
    pub assignment_names: Vec<String>,
    pub survival: Vec<StatTest>,
    pub advancement: Vec<StatTest>,
    pub s_and_t: SkillsAndTraining,
    pub ranks: Table,
    pub mishaps: Table,
    pub events: Table,
}

impl CareerPage {
    /// Well-formedness: one name, one survival test, one advancement test
    /// and one training table for each of the three assignment tracks.
    pub open spec fn wf(self) -> bool {
        &&& self.assignment_names@.len() == 3
        &&& self.survival@.len() == 3
        &&& self.advancement@.len() == 3
        &&& self.s_and_t.assignment@.len() == 3
    }
}

/// The sheet state and outcome after rolling a value on a table: the row
/// the roll maps to is applied; a roll that maps to no row is the
/// configuration error and applies nothing.
pub open spec fn table_roll_spec(s: SheetModel, t: Table, d: int) -> (SheetModel, Result<
    SkillOutcome,
    EngineError,
>) {
    if roll_in_table(t, d) {
        apply_effect_spec(s, t.rows@[d - t.offset].effect)
    } else {
        (s, Err(EngineError::RollOutOfRange))
    }
}

/// How one term's survival resolved: the career goes on with the margin,
/// or a mishap row was applied and the career ends.
#[derive(Clone, Copy, PartialEq, Eq, Structural, Debug)]
pub enum SurvivalOutcome {
    Survived(Effect),
    Ended(SkillOutcome),
}

/// How one term's advancement resolved: no advance with the margin, or a
/// rank row was applied and the rank rose.
#[derive(Clone, Copy, PartialEq, Eq, Structural, Debug)]
pub enum AdvanceOutcome {
    NoAdvance(Effect),
    Advanced(SkillOutcome),
}

/// Which skills-and-training table a term trains on; the choice is the
/// caller's (or the player's).
#[derive(Clone, Copy, PartialEq, Eq, Structural, Debug)]
pub enum TrainingChoice {
    Assignment(CareerAssign),
    PersonalDevelopment,
    AdvancedEducation,
    Service,
    Commission,
}

/// The table a training choice names on a page; for a commission choice
/// without a commission table this falls back to the service table, but
/// the training step excludes that case.
pub open spec fn training_table_spec(page: CareerPage, c: TrainingChoice) -> Table {
    match c {
        TrainingChoice::Assignment(a) => page.s_and_t.assignment@[assign_index_spec(a)],
        TrainingChoice::PersonalDevelopment => page.s_and_t.pd,
        TrainingChoice::AdvancedEducation => page.s_and_t.adv,
        TrainingChoice::Service => page.s_and_t.service,
        TrainingChoice::Commission => match page.s_and_t.commissioned {
            Some(t) => t,
            None => page.s_and_t.service,
        },
    }
}

/// A sheet state with the rank in its newest career history entry raised
/// by one.
pub open spec fn promoted(s: SheetModel) -> SheetModel {
    SheetModel {
        career: s.career.update(
            s.career.len() - 1,
            (CareerElem { rank: (s.career.last().rank + 1) as u8, ..s.career.last() }),
        ),
        ..s
    }
}

/// The states of the career progression machine: a character qualifies,
/// is assigned a track, and then serves terms of survival, advancement,
/// skill training and an event, looping term by term until a mishap or a
/// voluntary discharge musters the character out.
#[derive(Clone, Copy, PartialEq, Eq, Structural, Debug)]
pub enum CareerState {
    NotQualified,
    Qualifying,
    Assigned,
    Surviving,
    Advancing,
    SkillTraining,
    EventOrMishap,
    Mustered,
}

/// What happened during a progression step; the caller reports it to
/// `next_state` to move the machine on.
#[derive(Clone, Copy, PartialEq, Eq, Structural, Debug)]
pub enum CareerEvent {
    Begin,
    QualificationPassed,
    QualificationFailed,
    TrackChosen,
    Survived,
    MishapEndedCareer,
    AdvancementResolved,
    TrainingResolved,
    EventResolved,
    MusterOut,
}

/// The transition relation of the career progression machine. A failed
/// qualification returns to `NotQualified`: routing to a fallback career
/// is the surrounding application's policy, not the engine's. A mishap
/// musters the character out at once; a character who finishes a term
/// serves another or musters out, and a mustered character may begin a
/// new career, appending to the history. An event that does not belong to
/// a state yields nothing.
pub open spec fn next_state_spec(s: CareerState, e: CareerEvent) -> Option<CareerState> {
    match (s, e) {
        (CareerState::NotQualified, CareerEvent::Begin) => Some(CareerState::Qualifying),
        (CareerState::Qualifying, CareerEvent::QualificationPassed) => Some(CareerState::Assigned),
        (CareerState::Qualifying, CareerEvent::QualificationFailed) => Some(
            CareerState::NotQualified,
        ),
        (CareerState::Assigned, CareerEvent::TrackChosen) => Some(CareerState::Surviving),
        (CareerState::Surviving, CareerEvent::Survived) => Some(CareerState::Advancing),
        (CareerState::Surviving, CareerEvent::MishapEndedCareer) => Some(CareerState::Mustered),
        (CareerState::Advancing, CareerEvent::AdvancementResolved) => Some(
            CareerState::SkillTraining,
        ),
        (CareerState::SkillTraining, CareerEvent::TrainingResolved) => Some(
            CareerState::EventOrMishap,
        ),
        (CareerState::EventOrMishap, CareerEvent::EventResolved) => Some(CareerState::Surviving),
        (CareerState::EventOrMishap, CareerEvent::MusterOut) => Some(CareerState::Mustered),
        (CareerState::Mustered, CareerEvent::Begin) => Some(CareerState::Qualifying),
        _ => None,
    }
}

/// Moves the career progression machine on by one reported event, exactly
/// as `next_state_spec` describes.
pub fn next_state(s: CareerState, e: CareerEvent) -> (r: Option<CareerState>)
    ensures
        r == next_state_spec(s, e),
{
    match (s, e) {
        (CareerState::NotQualified, CareerEvent::Begin) => Some(CareerState::Qualifying),
        (CareerState::Qualifying, CareerEvent::QualificationPassed) => Some(CareerState::Assigned),
        (CareerState::Qualifying, CareerEvent::QualificationFailed) => Some(
            CareerState::NotQualified,
        ),
        (CareerState::Assigned, CareerEvent::TrackChosen) => Some(CareerState::Surviving),
        (CareerState::Surviving, CareerEvent::Survived) => Some(CareerState::Advancing),
        (CareerState::Surviving, CareerEvent::MishapEndedCareer) => Some(CareerState::Mustered),
        (CareerState::Advancing, CareerEvent::AdvancementResolved) => Some(
            CareerState::SkillTraining,
        ),
        (CareerState::SkillTraining, CareerEvent::TrainingResolved) => Some(
            CareerState::EventOrMishap,
        ),
        (CareerState::EventOrMishap, CareerEvent::EventResolved) => Some(CareerState::Surviving),
        (CareerState::EventOrMishap, CareerEvent::MusterOut) => Some(CareerState::Mustered),
        (CareerState::Mustered, CareerEvent::Begin) => Some(CareerState::Qualifying),
        _ => None,
    }
}

impl CharSheet {
    /// Rolls one die on a table and applies the row it maps to, exactly as
    /// `table_roll_spec` describes; a scripted pool pins the roll.
    pub fn roll_d6_on(&mut self, t: &Table) -> (r: Result<SkillOutcome, EngineError>)
        requires
            old(self).wf(),
        ensures
            final(self).wf(),
            exists|d: int|
                #![trigger table_roll_spec(old(self)@, *t, d)]
                1 <= d <= 6 && final(self)@ == table_roll_spec(old(self)@, *t, d).0 && r
                    == table_roll_spec(old(self)@, *t, d).1,
            old(self).dice().is_scripted() ==> final(self)@ == table_roll_spec(
                old(self)@,
                *t,
                old(self).dice().peek(),
            ).0 && r == table_roll_spec(old(self)@, *t, old(self).dice().peek()).1 && final(self).dice() == old(self).dice().advanced(),
            !old(self).dice().is_scripted() ==> !final(self).dice().is_scripted(),
    {
        let d = self.d6();
        let res = match t.row_for(d) {
            Ok(row) => self.apply_effect(&row.effect),
            Err(e) => Err(e),
        };
        proof {
            assert(1 <= d as int <= 6 && self@ == table_roll_spec(old(self)@, *t, d as int).0
                && res == table_roll_spec(old(self)@, *t, d as int).1);
        }
        res
    }

    /// Rolls two dice on a table and applies the row their sum maps to,
    /// exactly as `table_roll_spec` describes; a scripted pool pins the
    /// roll.
    pub fn roll_2d6_on(&mut self, t: &Table) -> (r: Result<SkillOutcome, EngineError>)
        requires
            old(self).wf(),
        ensures
            final(self).wf(),
            exists|d: int|
                #![trigger table_roll_spec(old(self)@, *t, d)]
                2 <= d <= 12 && final(self)@ == table_roll_spec(old(self)@, *t, d).0 && r
                    == table_roll_spec(old(self)@, *t, d).1,
            old(self).dice().is_scripted() ==> final(self)@ == table_roll_spec(
                old(self)@,
                *t,
                old(self).dice().peek() + old(self).dice().advanced().peek(),
            ).0 && r == table_roll_spec(
                old(self)@,
                *t,
                old(self).dice().peek() + old(self).dice().advanced().peek(),
            ).1 && final(self).dice() == old(self).dice().advanced().advanced(),
            !old(self).dice().is_scripted() ==> !final(self).dice().is_scripted(),
    {
        let d = self.twod6();
        let res = match t.row_for(d) {
            Ok(row) => self.apply_effect(&row.effect),
            Err(e) => Err(e),
        };
        proof {
            assert(2 <= d as int <= 12 && self@ == table_roll_spec(old(self)@, *t, d as int).0
                && res == table_roll_spec(old(self)@, *t, d as int).1);
        }
        res
    }

    /// Runs a career's qualification test; a nonnegative margin qualifies.
    /// Routing on failure (a fallback career, the draft) is the caller's
    /// policy; the engine only reports the margin.
    pub fn qualify(&mut self, page: &CareerPage) -> (e: Effect)
        requires
            old(self).wf(),
        ensures
            final(self).wf(),
            final(self)@ == old(self)@,
            page.qualification.margin(old(self)@, 2) <= e as int <= page.qualification.margin(
                old(self)@,
                12,
            ),
            old(self).dice().is_scripted() ==> e as int == page.qualification.margin(
                old(self)@,
                old(self).dice().peek() + old(self).dice().advanced().peek(),
            ) && final(self).dice() == old(self).dice().advanced().advanced(),
            !old(self).dice().is_scripted() ==> !final(self).dice().is_scripted(),
    {
        page.qualification.test(self)
    }

    /// One term's survival: runs the track's survival test; a nonnegative
    /// margin survives and changes nothing; a negative margin rolls one
    /// die on the mishaps table, applies the row, and ends the career.
    pub fn survival_step(&mut self, page: &CareerPage, track: CareerAssign) -> (r: Result<
        SurvivalOutcome,
        EngineError,
    >)
        requires
            old(self).wf(),
            page.wf(),
        ensures
            final(self).wf(),
            match r {
                Ok(SurvivalOutcome::Survived(e)) => e >= 0 && final(self)@ == old(self)@
                    && page.survival@[assign_index_spec(track)].margin(old(self)@, 2) <= e as int
                    <= page.survival@[assign_index_spec(track)].margin(old(self)@, 12),
                Ok(SurvivalOutcome::Ended(o)) => page.survival@[assign_index_spec(track)].margin(
                    old(self)@,
                    2,
                ) < 0 && exists|d: int|
                    #![trigger table_roll_spec(old(self)@, page.mishaps, d)]
                    1 <= d <= 6 && final(self)@ == table_roll_spec(old(self)@, page.mishaps, d).0
                        && table_roll_spec(old(self)@, page.mishaps, d).1 == Ok::<
                        SkillOutcome,
                        EngineError,
                    >(o),
                Err(er) => page.survival@[assign_index_spec(track)].margin(old(self)@, 2) < 0
                    && exists|d: int|
                    #![trigger table_roll_spec(old(self)@, page.mishaps, d)]
                    1 <= d <= 6 && final(self)@ == table_roll_spec(old(self)@, page.mishaps, d).0
                        && table_roll_spec(old(self)@, page.mishaps, d).1 == Err::<
                        SkillOutcome,
                        EngineError,
                    >(er),
            },
            old(self).dice().is_scripted() ==> ({
                let st = page.survival@[assign_index_spec(track)];
                let e0 = st.margin(
                    old(self)@,
                    old(self).dice().peek() + old(self).dice().advanced().peek(),
                );
                let dice2 = old(self).dice().advanced().advanced();
                if e0 >= 0 {
                    &&& r == Ok::<SurvivalOutcome, EngineError>(SurvivalOutcome::Survived(
                        e0 as i16,
                    ))
                    &&& final(self)@ == old(self)@
                    &&& final(self).dice() == dice2
                } else {
                    let step = table_roll_spec(old(self)@, page.mishaps, dice2.peek());
                    &&& final(self)@ == step.0
                    &&& r == (match step.1 {
                        Ok(o) => Ok::<SurvivalOutcome, EngineError>(SurvivalOutcome::Ended(o)),
                        Err(er) => Err::<SurvivalOutcome, EngineError>(er),
                    })
                    &&& final(self).dice() == dice2.advanced()
                }
            }),
    {
        let st = page.survival[track.index()];
        let e = st.test(self);
        if e >= 0 {
            Ok(SurvivalOutcome::Survived(e))
        } else {
            match self.roll_d6_on(&page.mishaps) {
                Ok(o) => Ok(SurvivalOutcome::Ended(o)),
                Err(er) => Err(er),
            }
        }
    }

    /// One term's advancement: runs the track's advancement test; a
    /// negative margin changes nothing; a nonnegative margin rolls one die
    /// on the ranks table, applies the row, and raises the rank in the
    /// newest history entry.
    pub fn advancement_step(&mut self, page: &CareerPage, track: CareerAssign) -> (r: Result<
        AdvanceOutcome,
        EngineError,
    >)
        requires
            old(self).wf(),
            page.wf(),
            old(self)@.career.len() > 0,
            old(self)@.career.last().rank < 255,
        ensures
            final(self).wf(),
            match r {
                Ok(AdvanceOutcome::NoAdvance(e)) => e < 0 && final(self)@ == old(self)@
                    && page.advancement@[assign_index_spec(track)].margin(old(self)@, 2) <= e as int,
                Ok(AdvanceOutcome::Advanced(o)) => page.advancement@[assign_index_spec(
                    track,
                )].margin(old(self)@, 12) >= 0 && exists|d: int|
                    #![trigger table_roll_spec(old(self)@, page.ranks, d)]
                    1 <= d <= 6 && final(self)@ == promoted(
                        table_roll_spec(old(self)@, page.ranks, d).0,
                    ) && table_roll_spec(old(self)@, page.ranks, d).1 == Ok::<
                        SkillOutcome,
                        EngineError,
                    >(o),
                Err(er) => exists|d: int|
                    #![trigger table_roll_spec(old(self)@, page.ranks, d)]
                    1 <= d <= 6 && final(self)@ == promoted(
                        table_roll_spec(old(self)@, page.ranks, d).0,
                    ) && table_roll_spec(old(self)@, page.ranks, d).1 == Err::<
                        SkillOutcome,
                        EngineError,
                    >(er),
            },
            old(self).dice().is_scripted() ==> ({
                let st = page.advancement@[assign_index_spec(track)];
                let e0 = st.margin(
                    old(self)@,
                    old(self).dice().peek() + old(self).dice().advanced().peek(),
                );
                let dice2 = old(self).dice().advanced().advanced();
                if e0 < 0 {
                    &&& r == Ok::<AdvanceOutcome, EngineError>(AdvanceOutcome::NoAdvance(
                        e0 as i16,
                    ))
                    &&& final(self)@ == old(self)@
                    &&& final(self).dice() == dice2
                } else {
                    let step = table_roll_spec(old(self)@, page.ranks, dice2.peek());
                    &&& final(self)@ == promoted(step.0)
                    &&& r == (match step.1 {
                        Ok(o) => Ok::<AdvanceOutcome, EngineError>(AdvanceOutcome::Advanced(o)),
                        Err(er) => Err::<AdvanceOutcome, EngineError>(er),
                    })
                    &&& final(self).dice() == dice2.advanced()
                }
            }),
    {
        let st = page.advancement[track.index()];
        let e = st.test(self);
        if e < 0 {
            Ok(AdvanceOutcome::NoAdvance(e))
        } else {
            let ghost pre = self@;
            let rolled = self.roll_d6_on(&page.ranks);
            proof {
                let d = choose|d: int|
                    #![trigger table_roll_spec(pre, page.ranks, d)]
                    1 <= d <= 6 && self@ == table_roll_spec(pre, page.ranks, d).0 && rolled
                        == table_roll_spec(pre, page.ranks, d).1;
                if crate::table::roll_in_table(page.ranks, d) {
                    crate::sheet::lemma_apply_effect_career(
                        pre,
                        page.ranks.rows@[d - page.ranks.offset].effect,
                    );
                }
                assert(self@.career == old(self)@.career);
            }
            self.promote_last();
            match rolled {
                Ok(o) => Ok(AdvanceOutcome::Advanced(o)),
                Err(er) => Err(er),
            }
        }
    }

    /// One term's skill training: rolls one die on the chosen
    /// skills-and-training table and applies the row. Choosing the
    /// commission table asks that the career offer one.
    pub fn training_step(&mut self, page: &CareerPage, choice: TrainingChoice) -> (r: Result<
        SkillOutcome,
        EngineError,
    >)
        requires
            old(self).wf(),
            page.wf(),
            choice is Commission ==> page.s_and_t.commissioned is Some,
        ensures
            final(self).wf(),
            exists|d: int|
                #![trigger table_roll_spec(old(self)@, training_table_spec(*page, choice), d)]
                1 <= d <= 6 && final(self)@ == table_roll_spec(
                    old(self)@,
                    training_table_spec(*page, choice),
                    d,
                ).0 && r == table_roll_spec(old(self)@, training_table_spec(*page, choice), d).1,
            old(self).dice().is_scripted() ==> final(self)@ == table_roll_spec(
                old(self)@,
                training_table_spec(*page, choice),
                old(self).dice().peek(),
            ).0 && r == table_roll_spec(
                old(self)@,
                training_table_spec(*page, choice),
                old(self).dice().peek(),
            ).1 && final(self).dice() == old(self).dice().advanced(),
    {
        let t: &Table = match choice {
            TrainingChoice::Assignment(a) => &page.s_and_t.assignment[a.index()],
            TrainingChoice::PersonalDevelopment => &page.s_and_t.pd,
            TrainingChoice::AdvancedEducation => &page.s_and_t.adv,
            TrainingChoice::Service => &page.s_and_t.service,
            TrainingChoice::Commission => match &page.s_and_t.commissioned {
                Some(ct) => ct,
                None => &page.s_and_t.service,
            },
        };
        proof {
            assert(*t == training_table_spec(*page, choice));
        }
        self.roll_d6_on(t)
    }

    /// One term's event: rolls two dice on the eleven-row events table and
    /// applies the row, once per term, independent of the survival
    /// outcome.
    pub fn event_step(&mut self, page: &CareerPage) -> (r: Result<SkillOutcome, EngineError>)
        requires
            old(self).wf(),
        ensures
            final(self).wf(),
            exists|d: int|
                #![trigger table_roll_spec(old(self)@, page.events, d)]
                2 <= d <= 12 && final(self)@ == table_roll_spec(old(self)@, page.events, d).0 && r
                    == table_roll_spec(old(self)@, page.events, d).1,
            old(self).dice().is_scripted() ==> final(self)@ == table_roll_spec(
                old(self)@,
                page.events,
                old(self).dice().peek() + old(self).dice().advanced().peek(),
            ).0 && r == table_roll_spec(
                old(self)@,
                page.events,
                old(self).dice().peek() + old(self).dice().advanced().peek(),
            ).1 && final(self).dice() == old(self).dice().advanced().advanced(),
    {
        self.roll_2d6_on(&page.events)
    }
}

} // verus!
