//! A workout planner: the decision logic that chooses a plan from the
//! workout intensity and a random number, consulting a (simulated) expensive
//! calculation through the memoizing evaluator so that the calculation runs
//! at most once however often its result is needed.

use vstd::prelude::*;

use crate::cacher::Cacher;

verus! {

/// What the planner tells the user to do.
#[derive(Clone, Copy, Debug, PartialEq, Eq, Structural)]
pub enum WorkoutPlan {
    /// Do this many pushups, then this many situps.
    Exercise { pushups: u32, situps: u32 },
    /// Take a break and stay hydrated.
    Break,
    /// Run for this many minutes.
    Run { minutes: u32 },
}

/// Chooses the plan for the given intensity and random number: below an
/// intensity of 25, pushups and situps, both given by the expensive
/// calculation on the intensity; otherwise a break when the random number is
/// 3, and a run given by the expensive calculation when it is not. The
/// expensive calculation here passes the intensity through unchanged, so the
/// plan's numbers all equal the intensity.
pub fn generate_workout(intensity: u32, random_number: u32) -> (plan: WorkoutPlan)
    ensures
        intensity < 25 ==> plan == (WorkoutPlan::Exercise {
            pushups: intensity,
            situps: intensity,
        }),
        intensity >= 25 && random_number == 3 ==> plan == WorkoutPlan::Break,
        intensity >= 25 && random_number != 3 ==> plan == (WorkoutPlan::Run {
            minutes: intensity,
        }),
{
    let expensive = |num: &u32| -> (r: Result<u32, ()>)
        ensures
            r == Ok::<u32, ()>(*num),
        { Ok(*num) };
    let mut expensive_result = Cacher::new(expensive);
    if intensity < 25 {
        let pushups = match expensive_result.value(intensity) {
            Ok(v) => v,
            Err(_) => {
                // the computation above never fails
                proof {
                    assert(false);
                }
                0
            },
        };
        let situps = match expensive_result.value(intensity) {
            Ok(v) => v,
            Err(_) => {
                // the computation above never fails
                proof {
                    assert(false);
                }
                0
            },
        };
        WorkoutPlan::Exercise { pushups, situps }
    } else if random_number == 3 {
        WorkoutPlan::Break
    } else {
        let minutes = match expensive_result.value(intensity) {
            Ok(v) => v,
            Err(_) => {
                // the computation above never fails
                proof {
                    assert(false);
                }
                0
            },
        };
        WorkoutPlan::Run { minutes }
    }
}

} // verus!
