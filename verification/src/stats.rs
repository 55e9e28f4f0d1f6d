//! The seven ability scores and their derived modifiers.

use vstd::prelude::*;
use vstd::arithmetic::div_mod::{lemma_div_is_ordered, lemma_div_pos_is_pos};

verus! {

/// One of the seven fixed ability identities.
#[derive(Clone, Copy, PartialEq, Eq, Structural, Debug)]
pub enum Stat {
    STR,
    DEX,
    END,
    INT,
    EDU,
    SOC,
    PSI,
}

/// The position of an ability inside the score array.
pub open spec fn stat_index_spec(s: Stat) -> int {
    match s {
        Stat::STR => 0,
        Stat::DEX => 1,
        Stat::END => 2,
        Stat::INT => 3,
        Stat::EDU => 4,
        Stat::SOC => 5,
        Stat::PSI => 6,
    }
}

impl Stat {
    /// The position of this ability inside the score array.
    pub fn index(self) -> (i: usize)
        ensures
            i as int == stat_index_spec(self),
            i < 7,
    {
        match self {
            Stat::STR => 0,
            Stat::DEX => 1,
            Stat::END => 2,
            Stat::INT => 3,
            Stat::EDU => 4,
            Stat::SOC => 5,
            Stat::PSI => 6,
        }
    }
}

/// The derived modifier of an ability score: a score of zero gives -3,
/// any other nonnegative score gives `floor(score / 3) - 2`.
pub open spec fn stat_modifier(v: int) -> int {
    if v == 0 {
        -3
    } else {
        v / 3 - 2
    }
}

/// A nonnegative score has modifier -3 exactly when the score is zero,
/// and the modifier of a positive score is `floor(score / 3) - 2`.
pub proof fn lemma_modifier_zero_iff(v: int)
    requires
        0 <= v,
    ensures
        (stat_modifier(v) == -3) <==> (v == 0),
        v > 0 ==> stat_modifier(v) == v / 3 - 2,
{
    if v > 0 {
        lemma_div_pos_is_pos(v, 3);
    }
}

/// The derived modifier never decreases as the score grows.
pub proof fn lemma_modifier_monotonic(a: int, b: int)
    requires
        0 <= a <= b,
    ensures
        stat_modifier(a) <= stat_modifier(b),
{
    lemma_div_pos_is_pos(b, 3);
    if a > 0 {
        lemma_div_is_ordered(a, b, 3);
    }
}

/// The derived modifier of a raw score, on machine integers.
pub fn modifier_of(v: u8) -> (m: i8)
    ensures
        m as int == stat_modifier(v as int),
{
    if v == 0 {
        -3
    } else {
        proof {
            lemma_div_pos_is_pos(v as int, 3);
            lemma_div_is_ordered(v as int, 255, 3);
        }
        (v / 3) as i8 - 2
    }
}

} // verus!
