//! The skill ledger: a mapping from skill identity to an integer level,
//! whose mutation operations keep the invariants between a basic skill and
//! its named specialisms. The ledger is viewed as a mathematical map from
//! `SkillKey` to level, and every mutation is described exactly by a spec
//! transition function over that map.
//!
//! Invariants kept after every mutation:
//! - every stored level is nonnegative, and every stored key is well formed;
//! - a specialised entry has level at least 1, and its parent basic entry
//!   exists with level exactly 0;
//! - (so a nonzero basic entry of a specializable name can exist only while
//!   no specialised sibling does).

use vstd::prelude::*;
use crate::skill::{BasicSkill, Skill, SkillKey, basic_key, spec_key, key_wf, specializable};
use crate::EngineError;

verus! {

/// What a mutation did: either it applied directly, or it stopped because a
/// basic, specializable entry at level 0 needs the specialism-selection
/// collaborator to pick a concrete specialism first. In the second case the
/// ledger is unchanged; the caller obtains a choice and applies the same
/// operation to the specialised identity.
#[derive(Clone, Copy, PartialEq, Eq, Structural, Debug)]
pub enum SkillOutcome {
    Applied,
    NeedsSpecialism(BasicSkill),
}

struct SkillEntry {
    skill: Skill,
    level: i8,
}

/// The skill ledger.
pub struct SkillLedger {
    entries: Vec<SkillEntry>,
}

spec fn entries_map(s: Seq<SkillEntry>) -> Map<SkillKey, int>
    decreases s.len(),
{
    if s.len() == 0 {
        Map::empty()
    } else {
        entries_map(s.drop_last()).insert(s.last().skill@, s.last().level as int)
    }
}

spec fn unique_keys(s: Seq<SkillEntry>) -> bool {
    forall|i: int, j: int|
        0 <= i < j < s.len() ==> #[trigger] s[i].skill@ != #[trigger] s[j].skill@
}

proof fn lemma_entries_map_char(s: Seq<SkillEntry>)
    ensures
        forall|k: SkillKey|
            #[trigger] entries_map(s).contains_key(k) <==> exists|i: int|
                0 <= i < s.len() && #[trigger] s[i].skill@ == k,
        unique_keys(s) ==> forall|i: int|
            0 <= i < s.len() ==> entries_map(s)[#[trigger] s[i].skill@] == s[i].level as int,
    decreases s.len(),
{
    if s.len() > 0 {
        let dl = s.drop_last();
        lemma_entries_map_char(dl);
        assert forall|k: SkillKey| #[trigger] entries_map(s).contains_key(k) implies exists|i: int|
            0 <= i < s.len() && #[trigger] s[i].skill@ == k by {
            if k == s.last().skill@ {
                assert(s[s.len() - 1].skill@ == k);
            } else {
                assert(entries_map(dl).contains_key(k));
                let i = choose|i: int| 0 <= i < dl.len() && #[trigger] dl[i].skill@ == k;
                assert(dl[i] == s[i]);
                assert(s[i].skill@ == k);
            }
        }
        assert forall|k: SkillKey|
            (exists|i: int| 0 <= i < s.len() && #[trigger] s[i].skill@ == k) implies #[trigger]
            entries_map(s).contains_key(k) by {
            let i = choose|i: int| 0 <= i < s.len() && #[trigger] s[i].skill@ == k;
            if i < s.len() - 1 {
                assert(dl[i].skill@ == k);
                assert(entries_map(dl).contains_key(k));
            }
        }
        if unique_keys(s) {
            assert(unique_keys(dl)) by {
                assert forall|i: int, j: int| 0 <= i < j < dl.len() implies #[trigger] dl[i].skill@
                    != #[trigger] dl[j].skill@ by {
                    assert(s[i].skill@ != s[j].skill@);
                }
            }
            assert forall|i: int| 0 <= i < s.len() implies entries_map(s)[#[trigger] s[i].skill@]
                == s[i].level as int by {
                if i < s.len() - 1 {
                    assert(s[i].skill@ != s[s.len() - 1].skill@);
                    assert(dl[i].skill@ == s[i].skill@);
                }
            }
        }
    }
}

proof fn lemma_entries_map_push(s: Seq<SkillEntry>, e: SkillEntry)
    ensures
        entries_map(s.push(e)) == entries_map(s).insert(e.skill@, e.level as int),
{
    assert(s.push(e).drop_last() =~= s);
    assert(s.push(e).last() == e);
}

proof fn lemma_unique_push(s: Seq<SkillEntry>, e: SkillEntry)
    requires
        unique_keys(s),
        forall|j: int| 0 <= j < s.len() ==> #[trigger] s[j].skill@ != e.skill@,
    ensures
        unique_keys(s.push(e)),
{
    let t = s.push(e);
    assert forall|i: int, j: int| 0 <= i < j < t.len() implies #[trigger] t[i].skill@
        != #[trigger] t[j].skill@ by {
        if j < s.len() {
            assert(s[i].skill@ != s[j].skill@);
        } else {
            assert(t[j] == e);
            assert(t[i] == s[i]);
        }
    }
}

proof fn lemma_entries_map_remove(s: Seq<SkillEntry>, i: int)
    requires
        unique_keys(s),
        0 <= i < s.len(),
    ensures
        unique_keys(s.remove(i)),
        entries_map(s.remove(i)) == entries_map(s).remove(s[i].skill@),
    decreases s.len(),
{
    let t = s.remove(i);
    let k = s[i].skill@;
    s.remove_ensures(i);
    lemma_entries_map_char(s);
    assert forall|a: int, b: int| 0 <= a < b < t.len() implies #[trigger] t[a].skill@
        != #[trigger] t[b].skill@ by {
        let a0 = if a < i { a } else { a + 1 };
        let b0 = if b < i { b } else { b + 1 };
        assert(t[a] == s[a0]);
        assert(t[b] == s[b0]);
        assert(s[a0].skill@ != s[b0].skill@);
    }
    if i == s.len() - 1 {
        assert(t =~= s.drop_last());
        assert(!entries_map(s.drop_last()).contains_key(k)) by {
            lemma_entries_map_char(s.drop_last());
            if entries_map(s.drop_last()).contains_key(k) {
                let j = choose|j: int|
                    0 <= j < s.drop_last().len() && #[trigger] s.drop_last()[j].skill@ == k;
                assert(s[j].skill@ == s[i].skill@);
            }
        }
        assert(entries_map(s.remove(i)) =~= entries_map(s).remove(k));
    } else {
        let dl = s.drop_last();
        assert(unique_keys(dl)) by {
            assert forall|a: int, b: int| 0 <= a < b < dl.len() implies #[trigger] dl[a].skill@
                != #[trigger] dl[b].skill@ by {
                assert(s[a].skill@ != s[b].skill@);
            }
        }
        lemma_entries_map_remove(dl, i);
        assert(t.len() == s.len() - 1);
        assert(t.last() == s[s.len() - 1]);
        assert(t.drop_last() =~= dl.remove(i)) by {
            dl.remove_ensures(i);
        }
        assert(entries_map(t) == entries_map(dl.remove(i)).insert(
            s.last().skill@,
            s.last().level as int,
        ));
        assert(k != s.last().skill@);
        assert(entries_map(dl).remove(k).insert(s.last().skill@, s.last().level as int)
            =~= entries_map(dl).insert(s.last().skill@, s.last().level as int).remove(k));
    }
}

impl View for SkillLedger {
    type V = Map<SkillKey, int>;

    closed spec fn view(&self) -> Map<SkillKey, int> {
        entries_map(self.entries@)
    }
}

/// The key under which a jack-of-all-trades level is stored.
pub open spec fn joat_key() -> SkillKey {
    basic_key(BasicSkill::JackOfAllTrades)
}

/// The cross-entry invariants of the ledger contents.
pub open spec fn ledger_inv(m: Map<SkillKey, int>) -> bool {
    &&& forall|k: SkillKey| #[trigger] m.contains_key(k) ==> 0 <= m[k] && key_wf(k)
    &&& forall|k: SkillKey|
        #[trigger] m.contains_key(k) && k.1 is Some ==> 1 <= m[k] && m.contains_key(basic_key(k.0))
            && m[basic_key(k.0)] == 0
}

/// The resolved level of a basic name: the stored level if an entry exists,
/// else three below the jack-of-all-trades level if that entry exists, else
/// the untrained default of -3.
pub open spec fn resolved_basic(m: Map<SkillKey, int>, n: BasicSkill) -> int {
    if m.contains_key(basic_key(n)) {
        m[basic_key(n)]
    } else if m.contains_key(joat_key()) {
        m[joat_key()] - 3
    } else {
        -3
    }
}

/// The resolved level of an identity: a direct entry wins; a specialised
/// identity without one falls back to its basic name's resolved level.
pub open spec fn resolved_level(m: Map<SkillKey, int>, k: SkillKey) -> int {
    if k.1 is Some && m.contains_key(k) {
        m[k]
    } else {
        resolved_basic(m, k.0)
    }
}

/// Whether an entry for the key, if any, can still be raised by one
/// without leaving the machine level type.
pub open spec fn can_bump(m: Map<SkillKey, int>, k: SkillKey) -> bool {
    m.contains_key(k) ==> m[k] < i8::MAX as int
}

/// The ledger contents after a direct overwrite. A positive level on a
/// basic, specializable identity is coerced to 0 (intentional flattening: a
/// level on such a name lives in its specialisms). Setting a specialised
/// identity to 0 drops that entry and leaves the parent basic entry in
/// place (created at 0 if absent); a positive value stores the entry and
/// guarantees the parent, unless the parent is nonzero, which would corrupt
/// the sibling invariant and changes nothing.
pub open spec fn set_skill_spec(m: Map<SkillKey, int>, k: SkillKey, v: int) -> Map<SkillKey, int> {
    if k.1 is None {
        if specializable(k.0) {
            m.insert(k, 0)
        } else {
            m.insert(k, v)
        }
    } else {
        let b = basic_key(k.0);
        if v == 0 {
            let m1 = m.remove(k);
            if m1.contains_key(b) {
                m1
            } else {
                m1.insert(b, 0)
            }
        } else {
            if m.contains_key(b) {
                if m[b] == 0 {
                    m.insert(k, v)
                } else {
                    m
                }
            } else {
                m.insert(b, 0).insert(k, v)
            }
        }
    }
}

/// The result of a direct overwrite: it fails only when a positive level is
/// stored under a specialised identity whose parent basic entry is nonzero.
pub open spec fn set_skill_res(m: Map<SkillKey, int>, k: SkillKey, v: int) -> Result<
    (),
    EngineError,
> {
    if k.1 is Some && v > 0 && m.contains_key(basic_key(k.0)) && m[basic_key(k.0)] != 0 {
        Err(EngineError::InvariantViolation)
    } else {
        Ok(())
    }
}

/// The ledger contents after an increment. An absent basic entry is seeded
/// at 0; a present flat entry rises by one. A basic, specializable entry at
/// 0 changes nothing (the collaborator must pick a specialism first), and a
/// nonzero one changes nothing (fatal inconsistency). A present specialised
/// entry rises by one; an absent one is created at its floor of 1 when the
/// parent basic entry sits at 0 or is absent (an absent parent is created
/// at 0 beside it), and changes nothing when the parent is nonzero.
pub open spec fn inc_skill_spec(m: Map<SkillKey, int>, k: SkillKey) -> Map<SkillKey, int> {
    if k.1 is None {
        if specializable(k.0) {
            if m.contains_key(k) {
                m
            } else {
                m.insert(k, 0)
            }
        } else {
            if m.contains_key(k) {
                m.insert(k, m[k] + 1)
            } else {
                m.insert(k, 0)
            }
        }
    } else {
        let b = basic_key(k.0);
        if m.contains_key(k) {
            m.insert(k, m[k] + 1)
        } else if !m.contains_key(b) {
            m.insert(b, 0).insert(k, 1)
        } else if m[b] == 0 {
            m.insert(k, 1)
        } else {
            m
        }
    }
}

/// The result of an increment: the collaborator is needed for a basic,
/// specializable entry at level 0; a nonzero basic entry of a specializable
/// name, met directly or as the parent of a new specialism, is a fatal
/// inconsistency.
pub open spec fn inc_skill_res(m: Map<SkillKey, int>, k: SkillKey) -> Result<
    SkillOutcome,
    EngineError,
> {
    if k.1 is None {
        if specializable(k.0) && m.contains_key(k) {
            if m[k] == 0 {
                Ok(SkillOutcome::NeedsSpecialism(k.0))
            } else {
                Err(EngineError::InvariantViolation)
            }
        } else {
            Ok(SkillOutcome::Applied)
        }
    } else {
        let b = basic_key(k.0);
        if !m.contains_key(k) && m.contains_key(b) && m[b] != 0 {
            Err(EngineError::InvariantViolation)
        } else {
            Ok(SkillOutcome::Applied)
        }
    }
}

/// The ledger contents after an increment with a floor: a new entry is
/// seeded at the floor (a new specialised entry never below 1, and its
/// parent basic entry created at 0 if absent); an entry below the floor
/// rises to it; an entry at or above it rises by one. The basic,
/// specializable cases mirror the plain increment.
pub open spec fn inc_skill_min_spec(m: Map<SkillKey, int>, k: SkillKey, v: int) -> Map<
    SkillKey,
    int,
> {
    if k.1 is None {
        if specializable(k.0) {
            if m.contains_key(k) {
                m
            } else {
                m.insert(k, v)
            }
        } else {
            if m.contains_key(k) {
                if m[k] < v {
                    m.insert(k, v)
                } else {
                    m.insert(k, m[k] + 1)
                }
            } else {
                m.insert(k, v)
            }
        }
    } else {
        let b = basic_key(k.0);
        if m.contains_key(k) {
            if m[k] < v {
                m.insert(k, v)
            } else {
                m.insert(k, m[k] + 1)
            }
        } else if m.contains_key(b) {
            if m[b] == 0 {
                m.insert(k, if v < 1 { 1 } else { v })
            } else {
                m
            }
        } else {
            m.insert(b, 0).insert(k, if v < 1 { 1 } else { v })
        }
    }
}

/// The result of an increment with a floor, mirroring the plain increment.
pub open spec fn inc_skill_min_res(m: Map<SkillKey, int>, k: SkillKey) -> Result<
    SkillOutcome,
    EngineError,
> {
    if k.1 is None {
        if specializable(k.0) && m.contains_key(k) {
            if m[k] == 0 {
                Ok(SkillOutcome::NeedsSpecialism(k.0))
            } else {
                Err(EngineError::InvariantViolation)
            }
        } else {
            Ok(SkillOutcome::Applied)
        }
    } else {
        let b = basic_key(k.0);
        if !m.contains_key(k) && m.contains_key(b) && m[b] != 0 {
            Err(EngineError::InvariantViolation)
        } else {
            Ok(SkillOutcome::Applied)
        }
    }
}

/// The ledger contents after raising an entry to a minimum: the stored
/// level rises to the value only if currently lower, and is never lowered.
/// A positive minimum on a basic, specializable identity is a free pick of
/// specialism and changes nothing until the collaborator has chosen. A
/// specialised identity guarantees its parent basic entry, and a positive
/// minimum on a new specialism beside a nonzero parent changes nothing.
pub open spec fn set_min_skill_spec(m: Map<SkillKey, int>, k: SkillKey, v: int) -> Map<
    SkillKey,
    int,
> {
    if k.1 is None {
        if specializable(k.0) && v > 0 {
            m
        } else if m.contains_key(k) {
            if m[k] < v {
                m.insert(k, v)
            } else {
                m
            }
        } else {
            m.insert(k, v)
        }
    } else {
        let b = basic_key(k.0);
        if v == 0 {
            if m.contains_key(b) {
                m
            } else {
                m.insert(b, 0)
            }
        } else if m.contains_key(k) {
            if m[k] < v {
                m.insert(k, v)
            } else {
                m
            }
        } else if m.contains_key(b) {
            if m[b] == 0 {
                m.insert(k, v)
            } else {
                m
            }
        } else {
            m.insert(b, 0).insert(k, v)
        }
    }
}

/// The result of raising to a minimum: the collaborator is needed for a
/// positive minimum on a basic, specializable identity; a new specialism
/// beside a nonzero parent is a fatal inconsistency.
pub open spec fn set_min_skill_res(m: Map<SkillKey, int>, k: SkillKey, v: int) -> Result<
    SkillOutcome,
    EngineError,
> {
    if k.1 is None {
        if specializable(k.0) && v > 0 {
            Ok(SkillOutcome::NeedsSpecialism(k.0))
        } else {
            Ok(SkillOutcome::Applied)
        }
    } else {
        if v > 0 && !m.contains_key(k) && m.contains_key(basic_key(k.0)) && m[basic_key(k.0)] != 0 {
            Err(EngineError::InvariantViolation)
        } else {
            Ok(SkillOutcome::Applied)
        }
    }
}

impl SkillLedger {
    pub closed spec fn entries_unique(self) -> bool {
        unique_keys(self.entries@)
    }

    /// Well-formedness: unique stored keys, and the cross-entry invariants.
    pub open spec fn wf(self) -> bool {
        self.entries_unique() && ledger_inv(self@)
    }

    /// An empty ledger.
    pub fn new() -> (r: SkillLedger)
        ensures
            r.wf(),
            r@ == Map::<SkillKey, int>::empty(),
    {
        let r = SkillLedger { entries: Vec::new() };
        proof {
            assert(r.entries@.len() == 0);
        }
        r
    }

    fn find_index(&self, k: &Skill) -> (r: Option<usize>)
        ensures
            match r {
                Some(i) => i < self.entries@.len() && self.entries@[i as int].skill@ == k@,
                None => forall|j: int|
                    0 <= j < self.entries@.len() ==> #[trigger] self.entries@[j].skill@ != k@,
            },
    {
        let n = self.entries.len();
        let mut i: usize = 0;
        while i < n
            invariant
                n == self.entries@.len(),
                i <= n,
                forall|j: int| 0 <= j < i ==> #[trigger] self.entries@[j].skill@ != k@,
            decreases n - i,
        {
            if self.entries[i].skill.same_key(k) {
                return Some(i);
            }
            i = i + 1;
        }
        None
    }

    fn lookup(&self, k: &Skill) -> (r: Option<i8>)
        requires
            self.entries_unique(),
        ensures
            match r {
                Some(v) => self@.contains_key(k@) && self@[k@] == v as int,
                None => !self@.contains_key(k@),
            },
    {
        proof {
            lemma_entries_map_char(self.entries@);
        }
        match self.find_index(k) {
            Some(i) => Some(self.entries[i].level),
            None => None,
        }
    }

    fn put(&mut self, k: Skill, v: i8)
        requires
            old(self).entries_unique(),
        ensures
            final(self).entries_unique(),
            final(self)@ == old(self)@.insert(k@, v as int),
    {
        let idx = self.find_index(&k);
        match idx {
            Some(i) => {
                proof {
                    lemma_entries_map_char(self.entries@);
                    lemma_entries_map_remove(self.entries@, i as int);
                }
                let ghost mid = self.entries@.remove(i as int);
                self.entries.remove(i);
                proof {
                    assert forall|j: int| 0 <= j < mid.len() implies #[trigger] mid[j].skill@
                        != k@ by {
                        old(self).entries@.remove_ensures(i as int);
                        let j0 = if j < i as int { j } else { j + 1 };
                        assert(mid[j] == old(self).entries@[j0]);
                        if j0 != i as int {
                            assert(old(self).entries@[j0].skill@ != old(
                                self,
                            ).entries@[i as int].skill@);
                        }
                    }
                    lemma_unique_push(mid, SkillEntry { skill: k, level: v });
                    lemma_entries_map_push(mid, SkillEntry { skill: k, level: v });
                }
                self.entries.push(SkillEntry { skill: k, level: v });
                proof {
                    assert(self@ =~= old(self)@.insert(k@, v as int));
                }
            }
            None => {
                proof {
                    lemma_unique_push(self.entries@, SkillEntry { skill: k, level: v });
                    lemma_entries_map_push(self.entries@, SkillEntry { skill: k, level: v });
                }
                self.entries.push(SkillEntry { skill: k, level: v });
            }
        }
    }

    /// The resolved level of an identity, applying the fallback chain: a
    /// direct entry wins; a basic name without one falls back to three
    /// below the jack-of-all-trades level, or to -3; a specialised identity
    /// without one falls back to its basic name.
    pub fn get_skill(&self, skill: &Skill) -> (r: i8)
        requires
            self.wf(),
        ensures
            r as int == resolved_level(self@, skill@),
    {
        match self.lookup(skill) {
            Some(v) => v,
            None => self.get_basic(skill.name()),
        }
    }

    fn get_basic(&self, name: BasicSkill) -> (r: i8)
        requires
            self.wf(),
        ensures
            r as int == resolved_basic(self@, name),
    {
        let k = Skill::new_basic(name);
        match self.lookup(&k) {
            Some(v) => v,
            None => {
                let j = Skill::new_basic(BasicSkill::JackOfAllTrades);
                match self.lookup(&j) {
                    Some(v) => {
                        proof {
                            assert(self@.contains_key(joat_key()));
                        }
                        v - 3
                    }
                    None => -3,
                }
            }
        }
    }

    /// Directly overwrites the entry for an identity, as `set_skill_spec`
    /// and `set_skill_res` describe: coercing a positive level on a basic,
    /// specializable identity to 0, dropping a specialised entry set to 0,
    /// and always guaranteeing a specialised identity's parent.
    pub fn set_skill(&mut self, skill: Skill, val: i8) -> (r: Result<(), EngineError>)
        requires
            old(self).wf(),
            key_wf(skill@),
            0 <= val,
        ensures
            final(self).wf(),
            final(self)@ == set_skill_spec(old(self)@, skill@, val as int),
            r == set_skill_res(old(self)@, skill@, val as int),
    {
        if skill.specialism().is_none() {
            let n = skill.name();
            if n.is_specializable() {
                self.put(skill, 0);
            } else {
                self.put(skill, val);
            }
            Ok(())
        } else {
            let basic = skill.parent_basic();
            if val == 0 {
                self.del(&skill);
                if self.lookup(&basic).is_none() {
                    self.put(basic, 0);
                }
                Ok(())
            } else {
                match self.lookup(&basic) {
                    Some(b) => {
                        if b != 0 {
                            Err(EngineError::InvariantViolation)
                        } else {
                            self.put(skill, val);
                            Ok(())
                        }
                    }
                    None => {
                        self.put(basic, 0);
                        self.put(skill, val);
                        Ok(())
                    }
                }
            }
        }
    }

    /// Raises the entry for an identity by one, as `inc_skill_spec` and
    /// `inc_skill_res` describe: an absent basic entry is seeded at 0, an
    /// absent specialised entry is created at its floor of 1 (with its
    /// parent basic entry guaranteed at 0), and a basic, specializable
    /// entry at 0 defers to the specialism-selection collaborator
    /// (`NeedsSpecialism`) without mutating.
    pub fn inc_skill(&mut self, skill: Skill) -> (r: Result<SkillOutcome, EngineError>)
        requires
            old(self).wf(),
            key_wf(skill@),
            can_bump(old(self)@, skill@),
        ensures
            final(self).wf(),
            final(self)@ == inc_skill_spec(old(self)@, skill@),
            r == inc_skill_res(old(self)@, skill@),
    {
        if skill.specialism().is_none() {
            let n = skill.name();
            if n.is_specializable() {
                match self.lookup(&skill) {
                    Some(v) => {
                        if v == 0 {
                            Ok(SkillOutcome::NeedsSpecialism(n))
                        } else {
                            Err(EngineError::InvariantViolation)
                        }
                    }
                    None => {
                        self.put(skill, 0);
                        Ok(SkillOutcome::Applied)
                    }
                }
            } else {
                match self.lookup(&skill) {
                    Some(v) => {
                        self.put(skill, v + 1);
                        Ok(SkillOutcome::Applied)
                    }
                    None => {
                        self.put(skill, 0);
                        Ok(SkillOutcome::Applied)
                    }
                }
            }
        } else {
            let basic = skill.parent_basic();
            match self.lookup(&skill) {
                Some(v) => {
                    self.put(skill, v + 1);
                    Ok(SkillOutcome::Applied)
                }
                None => {
                    match self.lookup(&basic) {
                        None => {
                            self.put(basic, 0);
                            self.put(skill, 1);
                            Ok(SkillOutcome::Applied)
                        }
                        Some(b) => {
                            if b == 0 {
                                self.put(skill, 1);
                                Ok(SkillOutcome::Applied)
                            } else {
                                Err(EngineError::InvariantViolation)
                            }
                        }
                    }
                }
            }
        }
    }

    /// Raises the entry for an identity by one with a floor, as
    /// `inc_skill_min_spec` and `inc_skill_min_res` describe: a new entry
    /// is seeded at the floor, an entry below it rises to it, and an entry
    /// at or above it rises by one.
    pub fn inc_skill_min(&mut self, skill: Skill, minval: i8) -> (r: Result<
        SkillOutcome,
        EngineError,
    >)
        requires
            old(self).wf(),
            key_wf(skill@),
            0 <= minval,
            can_bump(old(self)@, skill@),
        ensures
            final(self).wf(),
            final(self)@ == inc_skill_min_spec(old(self)@, skill@, minval as int),
            r == inc_skill_min_res(old(self)@, skill@),
    {
        if skill.specialism().is_none() {
            let n = skill.name();
            if n.is_specializable() {
                match self.lookup(&skill) {
                    Some(v) => {
                        if v == 0 {
                            Ok(SkillOutcome::NeedsSpecialism(n))
                        } else {
                            Err(EngineError::InvariantViolation)
                        }
                    }
                    None => {
                        self.put(skill, minval);
                        Ok(SkillOutcome::Applied)
                    }
                }
            } else {
                match self.lookup(&skill) {
                    Some(v) => {
                        if v < minval {
                            self.put(skill, minval);
                        } else {
                            self.put(skill, v + 1);
                        }
                        Ok(SkillOutcome::Applied)
                    }
                    None => {
                        self.put(skill, minval);
                        Ok(SkillOutcome::Applied)
                    }
                }
            }
        } else {
            let basic = skill.parent_basic();
            match self.lookup(&skill) {
                Some(v) => {
                    if v < minval {
                        self.put(skill, minval);
                    } else {
                        self.put(skill, v + 1);
                    }
                    Ok(SkillOutcome::Applied)
                }
                None => {
                    match self.lookup(&basic) {
                        Some(b) => {
                            if b == 0 {
                                let seed = if minval < 1 {
                                    1
                                } else {
                                    minval
                                };
                                self.put(skill, seed);
                                Ok(SkillOutcome::Applied)
                            } else {
                                Err(EngineError::InvariantViolation)
                            }
                        }
                        None => {
                            self.put(basic, 0);
                            let seed = if minval < 1 {
                                1
                            } else {
                                minval
                            };
                            self.put(skill, seed);
                            Ok(SkillOutcome::Applied)
                        }
                    }
                }
            }
        }
    }

    /// Raises the entry for an identity to a minimum, as
    /// `set_min_skill_spec` and `set_min_skill_res` describe: never lowers
    /// a level; a positive minimum on a basic, specializable identity is a
    /// free pick of specialism and defers to the collaborator.
    pub fn set_min_skill(&mut self, skill: Skill, val: i8) -> (r: Result<
        SkillOutcome,
        EngineError,
    >)
        requires
            old(self).wf(),
            key_wf(skill@),
            0 <= val,
        ensures
            final(self).wf(),
            final(self)@ == set_min_skill_spec(old(self)@, skill@, val as int),
            r == set_min_skill_res(old(self)@, skill@, val as int),
    {
        if skill.specialism().is_none() {
            let n = skill.name();
            if n.is_specializable() && val > 0 {
                Ok(SkillOutcome::NeedsSpecialism(n))
            } else {
                match self.lookup(&skill) {
                    Some(v) => {
                        if v < val {
                            self.put(skill, val);
                        }
                        Ok(SkillOutcome::Applied)
                    }
                    None => {
                        self.put(skill, val);
                        Ok(SkillOutcome::Applied)
                    }
                }
            }
        } else {
            let basic = skill.parent_basic();
            if val == 0 {
                if self.lookup(&basic).is_none() {
                    self.put(basic, 0);
                }
                Ok(SkillOutcome::Applied)
            } else {
                match self.lookup(&skill) {
                    Some(v) => {
                        if v < val {
                            self.put(skill, val);
                        }
                        Ok(SkillOutcome::Applied)
                    }
                    None => {
                        match self.lookup(&basic) {
                            Some(b) => {
                                if b == 0 {
                                    self.put(skill, val);
                                    Ok(SkillOutcome::Applied)
                                } else {
                                    Err(EngineError::InvariantViolation)
                                }
                            }
                            None => {
                                self.put(basic, 0);
                                self.put(skill, val);
                                Ok(SkillOutcome::Applied)
                            }
                        }
                    }
                }
            }
        }
    }

    /// The stored level of an identity, if a direct entry exists.
    pub fn level_of(&self, skill: &Skill) -> (r: Option<i8>)
        requires
            self.wf(),
        ensures
            match r {
                Some(v) => self@.contains_key(skill@) && self@[skill@] == v as int,
                None => !self@.contains_key(skill@),
            },
    {
        self.lookup(skill)
    }

    /// The specialism strings already recorded for a name: what the
    /// specialism-selection collaborator offers as the existing choices.
    pub fn existing_specialisms(&self, name: BasicSkill) -> (r: Vec<String>)
        ensures
            forall|i: int|
                0 <= i < r@.len() ==> self@.contains_key(spec_key(name, #[trigger] r@[i]@)),
            forall|t: Seq<char>|
                #[trigger] self@.contains_key(spec_key(name, t)) ==> exists|i: int|
                    0 <= i < r@.len() && r@[i]@ == t,
    {
        proof {
            lemma_entries_map_char(self.entries@);
        }
        let mut out: Vec<String> = Vec::new();
        let nlen = self.entries.len();
        let mut idx: usize = 0;
        while idx < nlen
            invariant
                nlen == self.entries@.len(),
                idx <= nlen,
                forall|i: int|
                    0 <= i < out@.len() ==> exists|j: int|
                        0 <= j < self.entries@.len() && #[trigger] self.entries@[j].skill@
                            == spec_key(name, #[trigger] out@[i]@),
                forall|j: int|
                    #![trigger self.entries@[j].skill@]
                    0 <= j < idx && self.entries@[j].skill@.0 == name
                        && self.entries@[j].skill@.1 is Some ==> exists|i: int|
                        0 <= i < out@.len() && Some(#[trigger] out@[i]@)
                            == self.entries@[j].skill@.1,
            decreases nlen - idx,
        {
            let e = &self.entries[idx];
            if e.skill.name() == name {
                match e.skill.specialism() {
                    Some(sp) => {
                        proof {
                            assert(self.entries@[idx as int].skill@ == spec_key(name, sp@));
                        }
                        let ghost out_pre = out@;
                        out.push(sp.clone());
                        proof {
                            assert(forall|i: int|
                                0 <= i < out_pre.len() ==> #[trigger] out@[i] == out_pre[i]);
                            assert(out@[out@.len() - 1]@ == sp@);
                            assert forall|j: int|
                                #![trigger self.entries@[j].skill@]
                                0 <= j < idx + 1 && self.entries@[j].skill@.0 == name
                                    && self.entries@[j].skill@.1 is Some implies exists|i: int|
                                0 <= i < out@.len() && Some(#[trigger] out@[i]@)
                                    == self.entries@[j].skill@.1 by {
                                if j == idx as int {
                                    assert(Some(out@[out@.len() - 1]@)
                                        == self.entries@[j].skill@.1);
                                } else {
                                    let i = choose|i: int|
                                        0 <= i < out_pre.len() && Some(#[trigger] out_pre[i]@)
                                            == self.entries@[j].skill@.1;
                                    assert(Some(out@[i]@) == self.entries@[j].skill@.1);
                                }
                            }
                        }
                    }
                    None => {}
                }
            }
            idx = idx + 1;
        }
        proof {
            assert forall|i: int| 0 <= i < out@.len() implies self@.contains_key(
                spec_key(name, #[trigger] out@[i]@),
            ) by {
                let j = choose|j: int|
                    0 <= j < self.entries@.len() && #[trigger] self.entries@[j].skill@ == spec_key(
                        name,
                        out@[i]@,
                    );
                assert(self@.contains_key(self.entries@[j].skill@));
            }
            assert forall|t: Seq<char>| #[trigger]
                self@.contains_key(spec_key(name, t)) implies exists|i: int|
                0 <= i < out@.len() && out@[i]@ == t by {
                let j = choose|j: int|
                    0 <= j < self.entries@.len() && #[trigger] self.entries@[j].skill@ == spec_key(
                        name,
                        t,
                    );
                let i = choose|i: int|
                    0 <= i < out@.len() && Some(#[trigger] out@[i]@)
                        == self.entries@[j].skill@.1;
                assert(out@[i]@ == t);
            }
        }
        out
    }

    fn del(&mut self, k: &Skill)
        requires
            old(self).entries_unique(),
        ensures
            final(self).entries_unique(),
            final(self)@ == old(self)@.remove(k@),
    {
        match self.find_index(k) {
            Some(i) => {
                proof {
                    lemma_entries_map_remove(self.entries@, i as int);
                }
                self.entries.remove(i);
            }
            None => {
                proof {
                    lemma_entries_map_char(self.entries@);
                    assert(self@ =~= self@.remove(k@));
                }
            }
        }
    }
}

/// The ledger contents after incrementing the same identity a number of
/// times in a row.
pub open spec fn inc_n_times(m: Map<SkillKey, int>, k: SkillKey, t: nat) -> Map<SkillKey, int>
    decreases t,
{
    if t == 0 {
        m
    } else {
        inc_skill_spec(inc_n_times(m, k, (t - 1) as nat), k)
    }
}

/// Law: incrementing a basic, specializable identity whose entry sits at 0
/// with no specialised sibling mutates nothing and defers to the
/// collaborator; incrementing the specialised identity the collaborator
/// picked then creates that entry at level 1, so it resolves to 1 while
/// the basic entry still resolves to 0.
pub proof fn lemma_increment_specialises(m: Map<SkillKey, int>, n: BasicSkill, s: Seq<char>)
    requires
        ledger_inv(m),
        specializable(n),
        m.contains_key(basic_key(n)),
        m[basic_key(n)] == 0,
        forall|t: Seq<char>| !m.contains_key(#[trigger] spec_key(n, t)),
    ensures
        inc_skill_res(m, basic_key(n)) == Ok::<SkillOutcome, EngineError>(
            SkillOutcome::NeedsSpecialism(n),
        ),
        inc_skill_spec(m, basic_key(n)) == m,
        inc_skill_res(m, spec_key(n, s)) == Ok::<SkillOutcome, EngineError>(SkillOutcome::Applied),
        inc_skill_spec(m, spec_key(n, s)) == m.insert(spec_key(n, s), 1),
        resolved_level(inc_skill_spec(m, spec_key(n, s)), spec_key(n, s)) == 1,
        resolved_level(inc_skill_spec(m, spec_key(n, s)), basic_key(n)) == 0,
{
    assert(!m.contains_key(spec_key(n, s)));
}

/// Law: for a flat name with no entry, incrementing t times in a row
/// first seeds the entry at 0 and then raises it by one each time, so it
/// resolves to t - 1 afterwards.
pub proof fn lemma_flat_repeat_increment(m: Map<SkillKey, int>, n: BasicSkill, t: nat)
    requires
        !specializable(n),
        !m.contains_key(basic_key(n)),
        t >= 1,
    ensures
        inc_n_times(m, basic_key(n), t).contains_key(basic_key(n)),
        inc_n_times(m, basic_key(n), t)[basic_key(n)] == t - 1,
        resolved_level(inc_n_times(m, basic_key(n), t), basic_key(n)) == t - 1,
    decreases t,
{
    let k = basic_key(n);
    if t == 1 {
        assert(inc_n_times(m, k, 0) == m);
        assert(inc_n_times(m, k, 1) == inc_skill_spec(m, k));
    } else {
        lemma_flat_repeat_increment(m, n, (t - 1) as nat);
        assert(inc_n_times(m, k, t) == inc_skill_spec(inc_n_times(m, k, (t - 1) as nat), k));
    }
}

/// Law: raising an entry to a minimum is idempotent — applying the same
/// minimum to the same identity twice leaves the same contents as
/// applying it once.
pub proof fn lemma_set_min_idempotent(m: Map<SkillKey, int>, k: SkillKey, v: int)
    requires
        0 <= v,
    ensures
        set_min_skill_spec(set_min_skill_spec(m, k, v), k, v) == set_min_skill_spec(m, k, v),
{
    let m1 = set_min_skill_spec(m, k, v);
    assert(set_min_skill_spec(m1, k, v) =~= m1);
}

} // verus!
