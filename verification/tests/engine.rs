use chargen::career::{next_state, AdvanceOutcome, Career, CareerAssign, CareerEvent,
    CareerPage, CareerState, SkillsAndTraining, SurvivalOutcome, TrainingChoice};
use chargen::dice::DiePool;
use chargen::ledger::SkillOutcome;
use chargen::resolve::{SkillTest, StatTest};
use chargen::sheet::CharSheet;
use chargen::skill::{BasicSkill, Skill};
use chargen::stats::Stat;
use chargen::table::{Benefit, Row, RowEffect, Table};
use chargen::EngineError;

fn scripted_sheet(rolls: Vec<i8>) -> CharSheet {
    CharSheet::with_dice(DiePool::scripted(rolls))
}

fn modifier_for(score: u8) -> i8 {
    let mut sheet = CharSheet::new();
    sheet.set_stat(Stat::STR, score);
    sheet.get_stat_mod(Stat::STR)
}

#[test]
fn modifier_is_minus_three_only_at_zero() {
    assert_eq!(modifier_for(0), -3);
    for v in 1..=15u8 {
        assert!(modifier_for(v) > -3);
    }
}

#[test]
fn modifier_formula_values() {
    assert_eq!(modifier_for(1), -2);
    assert_eq!(modifier_for(2), -2);
    assert_eq!(modifier_for(3), -1);
    assert_eq!(modifier_for(5), -1);
    assert_eq!(modifier_for(6), 0);
    assert_eq!(modifier_for(9), 1);
    assert_eq!(modifier_for(12), 2);
    assert_eq!(modifier_for(15), 3);
}

#[test]
fn modifier_monotonic() {
    let mut prev = modifier_for(0);
    for v in 1..=20u8 {
        let cur = modifier_for(v);
        assert!(cur >= prev);
        prev = cur;
    }
}

#[test]
fn die_rolls_stay_in_range() {
    let mut pool = DiePool::new();
    for _ in 0..200 {
        let d = pool.d6();
        assert!((1..=6).contains(&d));
        let s = pool.twod6();
        assert!((2..=12).contains(&s));
    }
}

#[test]
fn scripted_dice_replay_and_sum() {
    let mut pool = DiePool::scripted(vec![2, 5, 6, 1]);
    assert_eq!(pool.d6(), 2);
    assert_eq!(pool.d6(), 5);
    assert_eq!(pool.twod6(), 7);
    // the stream cycles
    assert_eq!(pool.d6(), 2);
    let mut pool2 = DiePool::scripted(vec![2, 5]);
    assert_eq!(pool2.twod6(), 7);
}

#[test]
fn new_spec_respects_the_sentinel() {
    assert!(Skill::new_spec(BasicSkill::GunCombat, String::from("Pistol")).is_some());
    assert!(Skill::new_spec(BasicSkill::Pilot, String::from("Small Craft")).is_some());
    assert!(Skill::new_spec(BasicSkill::Admin, String::from("x")).is_none());
    assert!(Skill::new_spec(BasicSkill::LAST, String::from("x")).is_none());
    assert!(Skill::new_spec(BasicSkill::JackOfAllTrades, String::from("x")).is_none());
}

#[test]
fn select_specialism_builds_the_identity() {
    let basic = Skill::new_basic(BasicSkill::GunCombat);
    let chosen = basic.select_specialism_skill(String::from("Slug")).unwrap();
    assert_eq!(chosen.name(), BasicSkill::GunCombat);
    assert_eq!(chosen.specialism().unwrap(), "Slug");
    // a flat name or an already specialised identity yields nothing
    let flat = Skill::new_basic(BasicSkill::Recon);
    assert!(flat.select_specialism_skill(String::from("x")).is_none());
    assert!(chosen.select_specialism_skill(String::from("y")).is_none());
}

#[test]
fn untrained_lookup_defaults_to_minus_three() {
    let sheet = CharSheet::new();
    let gun = Skill::new_basic(BasicSkill::GunCombat);
    assert_eq!(sheet.get_skill(&gun), -3);
}

#[test]
fn untrained_lookup_falls_back_to_jack_of_all_trades() {
    let mut sheet = CharSheet::new();
    let joat = Skill::new_basic(BasicSkill::JackOfAllTrades);
    sheet.set_skill(joat, 2).unwrap();
    let gun = Skill::new_basic(BasicSkill::GunCombat);
    assert_eq!(sheet.get_skill(&gun), -1);
}

#[test]
fn specialised_lookup_falls_back_to_parent() {
    let mut sheet = CharSheet::new();
    let spec = Skill::new_spec(BasicSkill::Pilot, String::from("Small Craft")).unwrap();
    // no entries at all: parent chain ends at the untrained default
    assert_eq!(sheet.get_skill(&spec), -3);
    // a basic entry at 0 resolves the specialised lookup to 0
    sheet.set_skill(Skill::new_basic(BasicSkill::Pilot), 0).unwrap();
    assert_eq!(sheet.get_skill(&spec), 0);
    // a direct entry wins
    let spec2 = Skill::new_spec(BasicSkill::Pilot, String::from("Small Craft")).unwrap();
    sheet.set_skill(spec2, 3).unwrap();
    assert_eq!(sheet.get_skill(&spec), 3);
}

#[test]
fn set_skill_flattens_positive_basic_of_specializable_name() {
    let mut sheet = CharSheet::new();
    let pilot = Skill::new_basic(BasicSkill::Pilot);
    sheet.set_skill(pilot, 3).unwrap();
    let pilot2 = Skill::new_basic(BasicSkill::Pilot);
    assert_eq!(sheet.level_of(&pilot2), Some(0));
}

#[test]
fn set_skill_zero_drops_the_specialised_entry() {
    let mut sheet = CharSheet::new();
    let spec = Skill::new_spec(BasicSkill::Pilot, String::from("Small Craft")).unwrap();
    sheet.set_skill(spec, 2).unwrap();
    let spec2 = Skill::new_spec(BasicSkill::Pilot, String::from("Small Craft")).unwrap();
    assert_eq!(sheet.level_of(&spec2), Some(2));
    let spec3 = Skill::new_spec(BasicSkill::Pilot, String::from("Small Craft")).unwrap();
    sheet.set_skill(spec3, 0).unwrap();
    let spec4 = Skill::new_spec(BasicSkill::Pilot, String::from("Small Craft")).unwrap();
    assert_eq!(sheet.level_of(&spec4), None);
    // the parent basic entry stays
    assert_eq!(sheet.level_of(&Skill::new_basic(BasicSkill::Pilot)), Some(0));
}

#[test]
fn increment_defers_to_the_collaborator_then_specialises() {
    let mut sheet = CharSheet::new();
    let gun = Skill::new_basic(BasicSkill::GunCombat);
    sheet.set_skill(gun, 0).unwrap();
    let gun2 = Skill::new_basic(BasicSkill::GunCombat);
    let out = sheet.inc_skill(gun2).unwrap();
    assert_eq!(out, SkillOutcome::NeedsSpecialism(BasicSkill::GunCombat));
    // the collaborator picks a specialism; the increment lands there
    let chosen = Skill::new_basic(BasicSkill::GunCombat)
        .select_specialism_skill(String::from("Pistol"))
        .unwrap();
    assert_eq!(sheet.inc_skill(chosen).unwrap(), SkillOutcome::Applied);
    let spec = Skill::new_spec(BasicSkill::GunCombat, String::from("Pistol")).unwrap();
    assert_eq!(sheet.get_skill(&spec), 1);
    assert_eq!(sheet.get_skill(&Skill::new_basic(BasicSkill::GunCombat)), 0);
}

#[test]
fn flat_increment_seeds_at_zero_then_counts() {
    let mut sheet = CharSheet::new();
    for k in 1..=4i8 {
        let admin = Skill::new_basic(BasicSkill::Admin);
        assert_eq!(sheet.inc_skill(admin).unwrap(), SkillOutcome::Applied);
        let admin2 = Skill::new_basic(BasicSkill::Admin);
        assert_eq!(sheet.get_skill(&admin2), k - 1);
    }
}

#[test]
fn increment_on_nonzero_specializable_basic_is_fatal() {
    let mut sheet = CharSheet::new();
    // a floor-seeded basic entry of a specializable name can be nonzero
    let pilot = Skill::new_basic(BasicSkill::Pilot);
    assert_eq!(sheet.inc_skill_min(pilot, 3).unwrap(), SkillOutcome::Applied);
    assert_eq!(sheet.level_of(&Skill::new_basic(BasicSkill::Pilot)), Some(3));
    let pilot2 = Skill::new_basic(BasicSkill::Pilot);
    assert_eq!(sheet.inc_skill(pilot2), Err(EngineError::InvariantViolation));
    // and a new specialism beside it is refused too
    let spec = Skill::new_spec(BasicSkill::Pilot, String::from("Small Craft")).unwrap();
    assert_eq!(sheet.inc_skill(spec), Err(EngineError::InvariantViolation));
}

#[test]
fn increment_with_floor_creates_parent_and_specialism() {
    let mut sheet = CharSheet::new();
    let spec = Skill::new_spec(BasicSkill::Pilot, String::from("Small Craft")).unwrap();
    assert_eq!(sheet.inc_skill_min(spec, 2).unwrap(), SkillOutcome::Applied);
    assert_eq!(sheet.level_of(&Skill::new_basic(BasicSkill::Pilot)), Some(0));
    let spec2 = Skill::new_spec(BasicSkill::Pilot, String::from("Small Craft")).unwrap();
    assert_eq!(sheet.level_of(&spec2), Some(2));
}

#[test]
fn increment_with_floor_raises_low_entries_then_counts() {
    let mut sheet = CharSheet::new();
    let medic = Skill::new_basic(BasicSkill::Medic);
    sheet.set_skill(medic, 1).unwrap();
    let medic2 = Skill::new_basic(BasicSkill::Medic);
    sheet.inc_skill_min(medic2, 3).unwrap();
    assert_eq!(sheet.level_of(&Skill::new_basic(BasicSkill::Medic)), Some(3));
    let medic3 = Skill::new_basic(BasicSkill::Medic);
    sheet.inc_skill_min(medic3, 3).unwrap();
    assert_eq!(sheet.level_of(&Skill::new_basic(BasicSkill::Medic)), Some(4));
}

#[test]
fn set_minimum_never_lowers_and_is_idempotent() {
    let mut sheet = CharSheet::new();
    let recon = Skill::new_basic(BasicSkill::Recon);
    sheet.set_skill(recon, 4).unwrap();
    let recon2 = Skill::new_basic(BasicSkill::Recon);
    sheet.set_min_skill(recon2, 2).unwrap();
    assert_eq!(sheet.level_of(&Skill::new_basic(BasicSkill::Recon)), Some(4));
    let stealth = Skill::new_basic(BasicSkill::Stealth);
    sheet.set_min_skill(stealth, 2).unwrap();
    assert_eq!(sheet.level_of(&Skill::new_basic(BasicSkill::Stealth)), Some(2));
    // applying the same minimum again changes nothing
    let stealth2 = Skill::new_basic(BasicSkill::Stealth);
    sheet.set_min_skill(stealth2, 2).unwrap();
    assert_eq!(sheet.level_of(&Skill::new_basic(BasicSkill::Stealth)), Some(2));
}

#[test]
fn set_minimum_on_specializable_basic_is_a_free_pick() {
    let mut sheet = CharSheet::new();
    let pilot = Skill::new_basic(BasicSkill::Pilot);
    let out = sheet.set_min_skill(pilot, 2).unwrap();
    assert_eq!(out, SkillOutcome::NeedsSpecialism(BasicSkill::Pilot));
    assert_eq!(sheet.level_of(&Skill::new_basic(BasicSkill::Pilot)), None);
    let chosen = Skill::new_spec(BasicSkill::Pilot, String::from("Spacecraft")).unwrap();
    assert_eq!(sheet.set_min_skill(chosen, 2).unwrap(), SkillOutcome::Applied);
    let spec = Skill::new_spec(BasicSkill::Pilot, String::from("Spacecraft")).unwrap();
    assert_eq!(sheet.level_of(&spec), Some(2));
}

#[test]
fn existing_specialisms_lists_recorded_entries() {
    let mut sheet = CharSheet::new();
    let a = Skill::new_spec(BasicSkill::GunCombat, String::from("Pistol")).unwrap();
    let b = Skill::new_spec(BasicSkill::GunCombat, String::from("Rifle")).unwrap();
    let c = Skill::new_spec(BasicSkill::Pilot, String::from("Small Craft")).unwrap();
    sheet.set_skill(a, 1).unwrap();
    sheet.set_skill(b, 2).unwrap();
    sheet.set_skill(c, 1).unwrap();
    let mut got = sheet.existing_specialisms(BasicSkill::GunCombat);
    got.sort();
    assert_eq!(got, vec![String::from("Pistol"), String::from("Rifle")]);
    assert!(sheet.existing_specialisms(BasicSkill::Melee).is_empty());
}

fn row(label: &str, effect: RowEffect) -> Row {
    Row { txt: String::from(label), effect }
}

fn nothing_table(offset: i8, n: usize) -> Table {
    let mut rows = Vec::new();
    for i in 0..n {
        rows.push(row(&format!("row {}", i), RowEffect::Nothing));
    }
    Table { offset, rows }
}

#[test]
fn table_round_trip_and_bounds() {
    let o: i8 = 2;
    let n: usize = 11;
    let t = nothing_table(o, n);
    for i in 0..n {
        let r = t.row_for(o + i as i8).unwrap();
        assert_eq!(r.txt, format!("row {}", i));
    }
    assert_eq!(
        t.row_for(o - 1).map(|r| r.txt.clone()),
        Err(EngineError::RollOutOfRange)
    );
    assert_eq!(
        t.row_for(o + n as i8).map(|r| r.txt.clone()),
        Err(EngineError::RollOutOfRange)
    );
}

#[test]
fn skill_test_with_forced_roll() {
    // STR 9 gives modifier +1
    let mut sheet = scripted_sheet(vec![3, 4]);
    sheet.set_stat(Stat::STR, 9);
    assert_eq!(sheet.get_stat_mod(Stat::STR), 1);
    // skill level 2, target 8, forced roll sum 7: effect 2 + 7 - 8 = 1
    let admin = Skill::new_basic(BasicSkill::Admin);
    sheet.set_skill(admin, 2).unwrap();
    let test = SkillTest { skill: Skill::new_basic(BasicSkill::Admin), target: 8 };
    assert_eq!(test.test(&mut sheet), 1);
}

#[test]
fn stat_test_with_forced_roll() {
    let mut sheet = scripted_sheet(vec![6, 6]);
    sheet.set_stat(Stat::END, 9);
    let test = StatTest { stat: Stat::END, target: 8 };
    // +1 modifier, roll 12, target 8
    assert_eq!(test.test(&mut sheet), 5);
}

#[test]
fn effects_apply_atomically() {
    let mut sheet = CharSheet::new();
    assert_eq!(
        sheet.apply_effect(&RowEffect::GrantCash(5000)),
        Ok(SkillOutcome::Applied)
    );
    assert_eq!(sheet.get_cash(), 5000);
    assert_eq!(
        sheet.apply_effect(&RowEffect::GrantBenefit(Benefit::Contact)),
        Ok(SkillOutcome::Applied)
    );
    assert_eq!(sheet.benefit_count(), 1);
    assert_eq!(sheet.benefit_at(0), Benefit::Contact);
    // score adjustments clamp at zero
    assert_eq!(
        sheet.apply_effect(&RowEffect::AdjustStat(Stat::DEX, -2)),
        Ok(SkillOutcome::Applied)
    );
    assert_eq!(sheet.get_stat(Stat::DEX), 0);
    assert_eq!(
        sheet.apply_effect(&RowEffect::AdjustStat(Stat::DEX, 3)),
        Ok(SkillOutcome::Applied)
    );
    assert_eq!(sheet.get_stat(Stat::DEX), 3);
    // a pair applies in order
    let both = RowEffect::Both(
        Box::new(RowEffect::GrantCash(100)),
        Box::new(RowEffect::AdjustStat(Stat::DEX, 1)),
    );
    assert_eq!(sheet.apply_effect(&both), Ok(SkillOutcome::Applied));
    assert_eq!(sheet.get_cash(), 5100);
    assert_eq!(sheet.get_stat(Stat::DEX), 4);
}

#[test]
fn skill_effect_defers_without_mutating() {
    let mut sheet = CharSheet::new();
    let gun = Skill::new_basic(BasicSkill::GunCombat);
    sheet.set_skill(gun, 0).unwrap();
    let cash_before = sheet.get_cash();
    let e = RowEffect::AdjustSkill(Skill::new_basic(BasicSkill::GunCombat));
    assert_eq!(
        sheet.apply_effect(&e),
        Ok(SkillOutcome::NeedsSpecialism(BasicSkill::GunCombat))
    );
    assert_eq!(sheet.get_cash(), cash_before);
    assert_eq!(sheet.level_of(&Skill::new_basic(BasicSkill::GunCombat)), Some(0));
    // a flat skill effect lands directly
    let e2 = RowEffect::AdjustSkill(Skill::new_basic(BasicSkill::Streetwise));
    assert_eq!(sheet.apply_effect(&e2), Ok(SkillOutcome::Applied));
    assert_eq!(sheet.level_of(&Skill::new_basic(BasicSkill::Streetwise)), Some(0));
}

fn sample_page() -> CareerPage {
    let mut assignment = Vec::new();
    for _ in 0..3 {
        assignment.push(nothing_table(1, 6));
    }
    let mut mishaps = nothing_table(1, 6);
    mishaps.rows[2] = row("injured", RowEffect::GrantCash(-100));
    let mut ranks = nothing_table(0, 6);
    ranks.rows[1] = row("promoted with a bonus", RowEffect::GrantCash(250));
    let mut service = nothing_table(1, 6);
    service.rows[0] = row("learn recon", RowEffect::AdjustSkill(Skill::new_basic(BasicSkill::Recon)));
    CareerPage {
        qualification: StatTest { stat: Stat::INT, target: 5 },
        assignment_names: vec![
            String::from("first"),
            String::from("second"),
            String::from("third"),
        ],
        survival: vec![
            StatTest { stat: Stat::STR, target: 6 },
            StatTest { stat: Stat::STR, target: 6 },
            StatTest { stat: Stat::STR, target: 6 },
        ],
        advancement: vec![
            StatTest { stat: Stat::EDU, target: 6 },
            StatTest { stat: Stat::EDU, target: 6 },
            StatTest { stat: Stat::EDU, target: 6 },
        ],
        s_and_t: SkillsAndTraining {
            assignment,
            pd: nothing_table(1, 6),
            adv: nothing_table(1, 6),
            service,
            commissioned: None,
        },
        ranks,
        mishaps,
        events: nothing_table(2, 11),
    }
}

#[test]
fn qualification_reports_the_margin() {
    // INT 9 gives +1; forced roll 10 against target 5: margin 6
    let mut sheet = scripted_sheet(vec![4, 6]);
    sheet.set_stat(Stat::INT, 9);
    let page = sample_page();
    assert_eq!(sheet.qualify(&page), 6);
}

#[test]
fn survival_failure_rolls_a_mishap_and_ends_the_career() {
    // STR 0 gives -3; rolls: survival 2+2 (margin -5), mishap die 3
    let mut sheet = scripted_sheet(vec![2, 2, 3]);
    let page = sample_page();
    sheet.begin_career(Career::Army, CareerAssign::One);
    let out = sheet.survival_step(&page, CareerAssign::One).unwrap();
    assert_eq!(out, SurvivalOutcome::Ended(SkillOutcome::Applied));
    // mishap row 3 - offset 1 = index 2: the cash penalty applied
    assert_eq!(sheet.get_cash(), -100);
}

#[test]
fn survival_success_changes_nothing() {
    let mut sheet = scripted_sheet(vec![6, 6]);
    sheet.set_stat(Stat::STR, 9);
    let page = sample_page();
    sheet.begin_career(Career::Army, CareerAssign::Two);
    let out = sheet.survival_step(&page, CareerAssign::Two).unwrap();
    // +1 modifier, roll 12, target 6: margin 7
    assert_eq!(out, SurvivalOutcome::Survived(7));
    assert_eq!(sheet.get_cash(), 0);
}

#[test]
fn advancement_success_promotes_and_applies_the_rank_row() {
    // EDU 9 gives +1; rolls: advancement 6+6 (margin 7), rank die 1
    let mut sheet = scripted_sheet(vec![6, 6, 1]);
    sheet.set_stat(Stat::EDU, 9);
    let page = sample_page();
    sheet.begin_career(Career::Navy, CareerAssign::One);
    let out = sheet.advancement_step(&page, CareerAssign::One).unwrap();
    assert_eq!(out, AdvanceOutcome::Advanced(SkillOutcome::Applied));
    assert_eq!(sheet.career_len(), 1);
    assert_eq!(sheet.career_at(0).rank, 1);
    // rank die 1 - offset 0 = index 1: the cash bonus applied
    assert_eq!(sheet.get_cash(), 250);
}

#[test]
fn advancement_failure_changes_nothing() {
    let mut sheet = scripted_sheet(vec![2, 2]);
    let page = sample_page();
    sheet.begin_career(Career::Navy, CareerAssign::One);
    let out = sheet.advancement_step(&page, CareerAssign::One).unwrap();
    // -3 modifier, roll 4, target 6: margin -5
    assert_eq!(out, AdvanceOutcome::NoAdvance(-5));
    assert_eq!(sheet.career_at(0).rank, 0);
}

#[test]
fn training_rolls_on_the_chosen_table() {
    // service table row for die 1 teaches a flat skill
    let mut sheet = scripted_sheet(vec![1]);
    let page = sample_page();
    let out = sheet.training_step(&page, TrainingChoice::Service).unwrap();
    assert_eq!(out, SkillOutcome::Applied);
    assert_eq!(sheet.level_of(&Skill::new_basic(BasicSkill::Recon)), Some(0));
}

#[test]
fn event_roll_outside_the_table_is_a_configuration_error() {
    let mut page = sample_page();
    // an events table with too few rows cannot take every two-die sum
    page.events = nothing_table(2, 5);
    let mut sheet = scripted_sheet(vec![6, 6]);
    assert_eq!(sheet.event_step(&page), Err(EngineError::RollOutOfRange));
}

#[test]
fn event_roll_inside_the_table_applies() {
    let page = sample_page();
    let mut sheet = scripted_sheet(vec![6, 6]);
    assert_eq!(sheet.event_step(&page), Ok(SkillOutcome::Applied));
}

#[test]
fn begin_career_appends_history() {
    let mut sheet = CharSheet::new();
    sheet.begin_career(Career::Scout, CareerAssign::Three);
    sheet.begin_career(Career::Drifter, CareerAssign::One);
    assert_eq!(sheet.career_len(), 2);
    let first = sheet.career_at(0);
    assert_eq!(first.career, Career::Scout);
    assert_eq!(first.assignment, CareerAssign::Three);
    assert!(!first.commissioned);
    assert_eq!(first.rank, 0);
    assert_eq!(sheet.career_at(1).career, Career::Drifter);
}

#[test]
fn progression_states_follow_the_term_cycle() {
    let mut s = CareerState::NotQualified;
    s = next_state(s, CareerEvent::Begin).unwrap();
    assert_eq!(s, CareerState::Qualifying);
    s = next_state(s, CareerEvent::QualificationPassed).unwrap();
    assert_eq!(s, CareerState::Assigned);
    s = next_state(s, CareerEvent::TrackChosen).unwrap();
    assert_eq!(s, CareerState::Surviving);
    s = next_state(s, CareerEvent::Survived).unwrap();
    assert_eq!(s, CareerState::Advancing);
    s = next_state(s, CareerEvent::AdvancementResolved).unwrap();
    assert_eq!(s, CareerState::SkillTraining);
    s = next_state(s, CareerEvent::TrainingResolved).unwrap();
    assert_eq!(s, CareerState::EventOrMishap);
    // another term loops back to survival
    assert_eq!(
        next_state(s, CareerEvent::EventResolved),
        Some(CareerState::Surviving)
    );
    // or the character musters out, and may begin a new career
    s = next_state(s, CareerEvent::MusterOut).unwrap();
    assert_eq!(s, CareerState::Mustered);
    assert_eq!(next_state(s, CareerEvent::Begin), Some(CareerState::Qualifying));
}

#[test]
fn progression_rejects_events_out_of_order() {
    assert_eq!(next_state(CareerState::NotQualified, CareerEvent::Survived), None);
    assert_eq!(next_state(CareerState::Surviving, CareerEvent::TrackChosen), None);
    assert_eq!(next_state(CareerState::Mustered, CareerEvent::MusterOut), None);
    // a failed qualification returns the machine to the start
    assert_eq!(
        next_state(CareerState::Qualifying, CareerEvent::QualificationFailed),
        Some(CareerState::NotQualified)
    );
    // a mishap ends the career at once
    assert_eq!(
        next_state(CareerState::Surviving, CareerEvent::MishapEndedCareer),
        Some(CareerState::Mustered)
    );
}

#[test]
fn set_skill_overwrites_in_place() {
    let mut sheet = CharSheet::new();
    sheet.set_skill(Skill::new_basic(BasicSkill::Admin), 2).unwrap();
    sheet.set_skill(Skill::new_basic(BasicSkill::Admin), 5).unwrap();
    assert_eq!(sheet.level_of(&Skill::new_basic(BasicSkill::Admin)), Some(5));
    assert_eq!(sheet.get_skill(&Skill::new_basic(BasicSkill::Admin)), 5);
}

#[test]
fn empty_table_rejects_every_roll() {
    let t = Table { offset: 1, rows: Vec::new() };
    for roll in 0..=7i8 {
        assert!(t.row_for(roll).is_err());
    }
}

#[test]
fn increment_on_absent_specialism_creates_both_entries() {
    let mut sheet = CharSheet::new();
    let spec = Skill::new_spec(BasicSkill::Engineer, String::from("Power")).unwrap();
    assert_eq!(sheet.inc_skill(spec).unwrap(), SkillOutcome::Applied);
    assert_eq!(sheet.level_of(&Skill::new_basic(BasicSkill::Engineer)), Some(0));
    let spec2 = Skill::new_spec(BasicSkill::Engineer, String::from("Power")).unwrap();
    assert_eq!(sheet.level_of(&spec2), Some(1));
    assert_eq!(sheet.get_skill(&Skill::new_basic(BasicSkill::Engineer)), 0);
}

#[test]
fn increment_with_zero_floor_still_seeds_the_specialism_at_one() {
    let mut sheet = CharSheet::new();
    let spec = Skill::new_spec(BasicSkill::Flyer, String::from("Grav")).unwrap();
    assert_eq!(sheet.inc_skill_min(spec, 0).unwrap(), SkillOutcome::Applied);
    assert_eq!(sheet.level_of(&Skill::new_basic(BasicSkill::Flyer)), Some(0));
    let spec2 = Skill::new_spec(BasicSkill::Flyer, String::from("Grav")).unwrap();
    assert_eq!(sheet.level_of(&spec2), Some(1));
}
