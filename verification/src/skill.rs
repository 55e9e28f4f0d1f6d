//! Skill identities: a fixed catalog of skill names, of which a contiguous
//! prefix (bounded by the `LAST` sentinel) admits named specialisms, and a
//! `Skill` value that is either a basic name or a name plus a specialism
//! string. Malformed identities (a specialism on a name past the sentinel)
//! cannot be built through the constructors.

use vstd::prelude::*;

verus! {

/// The fixed catalog of skill names. Names before the `LAST` sentinel
/// admit specialisms; names after it are flat skills.
#[derive(Clone, Copy, PartialEq, Eq, Structural, Debug)]
pub enum BasicSkill {
    Animals,
    Art,
    Athletics,
    Drive,
    Electronics,
    Engineer,
    Flyer,
    Gunner,
    GunCombat,
    HeavyWeapons,
    Language,
    Melee,
    Pilot,
    Profession,
    Science,
    Seafarer,
    Tactics,
    LAST,
    Admin,
    Advocate,
    Astrogation,
    Broker,
    Carouse,
    Deception,
    Diplomat,
    Explosives,
    Gambler,
    Investigate,
    JackOfAllTrades,
    Leadership,
    Mechanic,
    Medic,
    Navigation,
    Persuade,
    Recon,
    Stealth,
    Steward,
    Streetwise,
    Survival,
    VaccSuit,
}

/// The position of a name inside the catalog.
pub open spec fn catalog_index(n: BasicSkill) -> int {
    match n {
        BasicSkill::Animals => 0,
        BasicSkill::Art => 1,
        BasicSkill::Athletics => 2,
        BasicSkill::Drive => 3,
        BasicSkill::Electronics => 4,
        BasicSkill::Engineer => 5,
        BasicSkill::Flyer => 6,
        BasicSkill::Gunner => 7,
        BasicSkill::GunCombat => 8,
        BasicSkill::HeavyWeapons => 9,
        BasicSkill::Language => 10,
        BasicSkill::Melee => 11,
        BasicSkill::Pilot => 12,
        BasicSkill::Profession => 13,
        BasicSkill::Science => 14,
        BasicSkill::Seafarer => 15,
        BasicSkill::Tactics => 16,
        BasicSkill::LAST => 17,
        BasicSkill::Admin => 18,
        BasicSkill::Advocate => 19,
        BasicSkill::Astrogation => 20,
        BasicSkill::Broker => 21,
        BasicSkill::Carouse => 22,
        BasicSkill::Deception => 23,
        BasicSkill::Diplomat => 24,
        BasicSkill::Explosives => 25,
        BasicSkill::Gambler => 26,
        BasicSkill::Investigate => 27,
        BasicSkill::JackOfAllTrades => 28,
        BasicSkill::Leadership => 29,
        BasicSkill::Mechanic => 30,
        BasicSkill::Medic => 31,
        BasicSkill::Navigation => 32,
        BasicSkill::Persuade => 33,
        BasicSkill::Recon => 34,
        BasicSkill::Stealth => 35,
        BasicSkill::Steward => 36,
        BasicSkill::Streetwise => 37,
        BasicSkill::Survival => 38,
        BasicSkill::VaccSuit => 39,
    }
}

/// Whether a name stands before the sentinel, and so admits specialisms.
pub open spec fn specializable(n: BasicSkill) -> bool {
    catalog_index(n) < catalog_index(BasicSkill::LAST)
}

impl BasicSkill {
    /// The position of this name inside the catalog.
    pub fn index(self) -> (i: u8)
        ensures
            i as int == catalog_index(self),
    {
        match self {
            BasicSkill::Animals => 0,
            BasicSkill::Art => 1,
            BasicSkill::Athletics => 2,
            BasicSkill::Drive => 3,
            BasicSkill::Electronics => 4,
            BasicSkill::Engineer => 5,
            BasicSkill::Flyer => 6,
            BasicSkill::Gunner => 7,
            BasicSkill::GunCombat => 8,
            BasicSkill::HeavyWeapons => 9,
            BasicSkill::Language => 10,
            BasicSkill::Melee => 11,
            BasicSkill::Pilot => 12,
            BasicSkill::Profession => 13,
            BasicSkill::Science => 14,
            BasicSkill::Seafarer => 15,
            BasicSkill::Tactics => 16,
            BasicSkill::LAST => 17,
            BasicSkill::Admin => 18,
            BasicSkill::Advocate => 19,
            BasicSkill::Astrogation => 20,
            BasicSkill::Broker => 21,
            BasicSkill::Carouse => 22,
            BasicSkill::Deception => 23,
            BasicSkill::Diplomat => 24,
            BasicSkill::Explosives => 25,
            BasicSkill::Gambler => 26,
            BasicSkill::Investigate => 27,
            BasicSkill::JackOfAllTrades => 28,
            BasicSkill::Leadership => 29,
            BasicSkill::Mechanic => 30,
            BasicSkill::Medic => 31,
            BasicSkill::Navigation => 32,
            BasicSkill::Persuade => 33,
            BasicSkill::Recon => 34,
            BasicSkill::Stealth => 35,
            BasicSkill::Steward => 36,
            BasicSkill::Streetwise => 37,
            BasicSkill::Survival => 38,
            BasicSkill::VaccSuit => 39,
        }
    }

    /// Whether this name admits specialisms.
    pub fn is_specializable(self) -> (b: bool)
        ensures
            b == specializable(self),
    {
        self.index() < BasicSkill::LAST.index()
    }
}

/// The mathematical identity of a ledger entry: a name, and the specialism
/// string (as a sequence of characters) if the entry is specialised.
pub type SkillKey = (BasicSkill, Option<Seq<char>>);

/// The key of a basic entry for a name.
pub open spec fn basic_key(n: BasicSkill) -> SkillKey {
    (n, None)
}

/// The key of a specialised entry for a name and a specialism string.
pub open spec fn spec_key(n: BasicSkill, s: Seq<char>) -> SkillKey {
    (n, Some(s))
}

/// A well-formed identity carries a specialism only on a specializable name.
pub open spec fn key_wf(k: SkillKey) -> bool {
    k.1 is Some ==> specializable(k.0)
}

/// A skill identity: a catalog name, and an optional specialism string.
/// The constructors refuse a specialism on a non-specializable name, so
/// every identity built through them satisfies `key_wf`.
#[derive(Debug)]
pub struct Skill {
    name: BasicSkill,
    specialism: Option<String>,
}

impl Clone for Skill {
    /// Clones the identity; the clone names the same ledger entry.
    fn clone(&self) -> (r: Self)
        ensures
            r@ == self@,
    {
        Skill {
            name: self.name,
            specialism: match &self.specialism {
                Some(s) => Some(s.clone()),
                None => None,
            },
        }
    }
}

impl View for Skill {
    type V = SkillKey;

    closed spec fn view(&self) -> SkillKey {
        (
            self.name,
            match self.specialism {
                Some(s) => Some(s@),
                None => None,
            },
        )
    }
}

impl Skill {
    /// The basic identity of a catalog name.
    pub fn new_basic(name: BasicSkill) -> (r: Skill)
        ensures
            r@ == basic_key(name),
    {
        Skill { name, specialism: None }
    }

    /// The specialised identity of a name, or nothing when the name stands
    /// at or past the sentinel and so admits no specialism. A specialism
    /// string is never empty: the collaborator that supplies one is bound
    /// to return a non-empty string.
    pub fn new_spec(name: BasicSkill, specialism: String) -> (r: Option<Skill>)
        requires
            specialism@.len() > 0,
        ensures
            match r {
                Some(s) => specializable(name) && s@ == spec_key(name, specialism@),
                None => !specializable(name),
            },
    {
        if name.is_specializable() {
            Some(Skill { name, specialism: Some(specialism) })
        } else {
            None
        }
    }

    /// The catalog name of this identity.
    pub fn name(&self) -> (n: BasicSkill)
        ensures
            n == self@.0,
    {
        self.name
    }

    /// The specialism string, if this identity is specialised.
    pub fn specialism(&self) -> (r: Option<&String>)
        ensures
            match r {
                Some(s) => self@.1 == Some(s@),
                None => self@.1 is None,
            },
    {
        match &self.specialism {
            Some(s) => Some(s),
            None => None,
        }
    }

    /// The basic identity that carries this identity's name.
    pub fn parent_basic(&self) -> (r: Skill)
        ensures
            r@ == basic_key(self@.0),
    {
        Skill { name: self.name, specialism: None }
    }

    /// Whether this identity and another name the same ledger entry.
    pub fn same_key(&self, other: &Skill) -> (r: bool)
        ensures
            r == (self@ == other@),
    {
        if self.name == other.name {
            match (&self.specialism, &other.specialism) {
                (Some(a), Some(b)) => *a == *b,
                (None, None) => true,
                _ => false,
            }
        } else {
            false
        }
    }

    /// Turns a basic, specializable identity into the specialised identity
    /// for a chosen specialism string; the choice itself comes from the
    /// specialism-selection collaborator outside the engine, which is bound
    /// to return a non-empty string. Yields nothing for a flat name or an
    /// identity that is already specialised.
    pub fn select_specialism_skill(&self, choice: String) -> (r: Option<Skill>)
        requires
            choice@.len() > 0,
        ensures
            match r {
                Some(s) => self@.1 is None && specializable(self@.0) && s@ == spec_key(
                    self@.0,
                    choice@,
                ),
                None => !(self@.1 is None && specializable(self@.0)),
            },
    {
        match &self.specialism {
            Some(_) => None,
            None => Skill::new_spec(self.name, choice),
        }
    }
}

} // verus!
