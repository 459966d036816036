//! Generations: counters that tell what was asked for from what is still
//! wanted.

use vstd::prelude::*;

verus! {

/// The number of generations; the counter starts over after its last.
pub open spec fn generation_count() -> nat {
    0x1_0000_0000_0000_0000
}

/// The generation that follows; the counter starts over after its last.
pub open spec fn next_generation(generation: u64) -> u64 {
    if generation == u64::MAX {
        0
    } else {
        (generation + 1) as u64
    }
}

/// The generation that so many steps lead to.
pub open spec fn later_generation(generation: u64, steps: nat) -> u64
    decreases steps,
{
    if steps == 0 {
        generation
    } else {
        next_generation(later_generation(generation, (steps - 1) as nat))
    }
}

/// Steps count on, until the counter starts over.
proof fn lemma_later_generation(generation: u64, steps: nat)
    requires
        steps < generation_count(),
    ensures
        later_generation(generation, steps) == if generation + steps < generation_count() {
            generation + steps
        } else {
            generation + steps - generation_count()
        },
    decreases steps,
{
    if steps > 0 {
        lemma_later_generation(generation, (steps - 1) as nat);
    }
}

/// However many steps follow a generation, short of as many as there are, it
/// does not come again.
pub proof fn law_generations_differ(generation: u64, steps: nat)
    requires
        0 < steps < generation_count(),
    ensures
        later_generation(generation, steps) != generation,
{
    lemma_later_generation(generation, steps);
}

} // verus!
