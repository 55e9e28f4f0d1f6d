//! The randomness source: single die values in [1, 6] and two-die sums in
//! [2, 12]. A pool either draws from the thread-local generator or replays
//! a scripted, cycling stream of die values, so that tests and callers can
//! inject a deterministic source.

use vstd::prelude::*;

verus! {

#[verifier::external_type_specification]
#[verifier::external_body]
pub struct ExThreadRng(rand::rngs::ThreadRng);

/// Relies on rand::Rng::gen_range over the nonempty range 1..=6: it
/// returns a uniform sample that lies within the range.
#[verifier::external_body]
fn sample_d6(rng: &mut rand::rngs::ThreadRng) -> (r: i8)
    ensures
        1 <= r <= 6,
{
    rand::Rng::gen_range(rng, 1..=6)
}

/// Relies on rand::thread_rng: a handle to the lazily seeded thread-local
/// generator.
#[verifier::external_body]
fn fresh_rng() -> rand::rngs::ThreadRng {
    rand::thread_rng()
}

/// A source of die rolls: the thread-local generator, or a scripted,
/// cycling stream of die values for deterministic replay.
pub enum DiePool {
    Random(rand::rngs::ThreadRng),
    Scripted { rolls: Vec<i8>, next: usize },
}

impl DiePool {
    /// Well-formedness: a scripted stream holds die values only, and its
    /// cursor stays inside the stream.
    pub open spec fn wf(self) -> bool {
        match self {
            DiePool::Random(_) => true,
            DiePool::Scripted { rolls, next } => {
                &&& forall|i: int| 0 <= i < rolls@.len() ==> 1 <= #[trigger] rolls@[i] <= 6
                &&& if rolls@.len() == 0 {
                    next == 0
                } else {
                    next < rolls@.len()
                }
            }
        }
    }

    /// Whether this pool replays a scripted stream.
    pub open spec fn is_scripted(self) -> bool {
        self is Scripted
    }

    /// The die value the next draw from a scripted pool yields (1 for an
    /// empty stream).
    pub open spec fn peek(self) -> int {
        match self {
            DiePool::Scripted { rolls, next } => if rolls@.len() == 0 {
                1
            } else {
                rolls@[next as int] as int
            },
            DiePool::Random(_) => 1,
        }
    }

    /// A scripted pool after one draw: the cursor moves on, wrapping at
    /// the end of the stream; a generator pool is unchanged by this.
    pub open spec fn advanced(self) -> DiePool {
        match self {
            DiePool::Scripted { rolls, next } => (DiePool::Scripted {
                rolls,
                next: if next + 1 >= rolls@.len() {
                    0
                } else {
                    (next + 1) as usize
                },
            }),
            r => r,
        }
    }

    /// A pool drawing from the thread-local generator.
    pub fn new() -> (r: DiePool)
        ensures
            r.wf(),
            !r.is_scripted(),
    {
        DiePool::Random(fresh_rng())
    }

    /// A pool replaying the given stream of die values, cycling when it
    /// reaches the end.
    pub fn scripted(rolls: Vec<i8>) -> (r: DiePool)
        requires
            forall|i: int| 0 <= i < rolls@.len() ==> 1 <= #[trigger] rolls@[i] <= 6,
        ensures
            r.wf(),
            r == (DiePool::Scripted { rolls, next: 0usize }),
    {
        DiePool::Scripted { rolls, next: 0 }
    }

    /// One die: a value in [1, 6]. A scripted pool yields exactly the value
    /// under its cursor and advances; a generator pool stays a generator.
    pub fn d6(&mut self) -> (r: i8)
        requires
            old(self).wf(),
        ensures
            final(self).wf(),
            1 <= r <= 6,
            old(self).is_scripted() ==> r as int == old(self).peek() && *final(self) == old(self).advanced(),
            !old(self).is_scripted() ==> !final(self).is_scripted(),
    {
        match self {
            DiePool::Random(rng) => {
                let r = sample_d6(rng);
                proof {
                    assert(!old(self).is_scripted());
                }
                r
            }
            DiePool::Scripted { rolls, next } => {
                if rolls.len() == 0 {
                    proof {
                        assert(old(self).peek() == 1);
                        assert(*self == old(self).advanced());
                    }
                    1
                } else {
                    let r = rolls[*next];
                    *next = if *next + 1 == rolls.len() {
                        0
                    } else {
                        *next + 1
                    };
                    proof {
                        assert(r as int == old(self).peek());
                        assert(*self == old(self).advanced());
                    }
                    r
                }
            }
        }
    }

    /// Two dice: the sum of two single draws, a value in [2, 12]. A
    /// scripted pool yields exactly the next two values under its cursor.
    pub fn twod6(&mut self) -> (r: i8)
        requires
            old(self).wf(),
        ensures
            final(self).wf(),
            2 <= r <= 12,
            old(self).is_scripted() ==> r as int == old(self).peek() + old(self).advanced().peek()
                && *final(self) == old(self).advanced().advanced(),
            !old(self).is_scripted() ==> !final(self).is_scripted(),
    {
        let a = self.d6();
        let b = self.d6();
        proof {
            assert(1 <= a as int <= 6 && 1 <= b as int <= 6 && (a + b) as int == a as int
                + b as int);
        }
        a + b
    }
}

} // verus!
