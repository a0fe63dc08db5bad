//! The per-step decisions of the simulation: which toggles are on, and what a
//! step does to the clock and asks of the driver.
use vstd::prelude::*;
use crate::clock::{next_tick, Now};

verus! {

/// The toggles of the simulation, each switched by its own key.
#[derive(Clone, Copy, Debug, PartialEq, Eq, Structural)]
pub struct SimState {
    /// Spin non-orbiting bodies about their own axes.
    pub rotation: bool,
    /// Move non-orbiting bodies round the origin.
    pub revolution: bool,
    /// Advance the clock.
    pub time: bool,
}

impl Default for SimState {
    /// Everything switched off.
    fn default() -> (r: SimState)
        ensures
            !r.rotation && !r.revolution && !r.time,
    {
        SimState { rotation: false, revolution: false, time: false }
    }
}

/// What a step asks the driver to do to the non-orbiting bodies.
#[derive(Clone, Copy, Debug, PartialEq, Eq, Structural)]
pub struct StepActions {
    /// Spin each body about its axis.
    pub rotate: bool,
    /// Move each body round the origin.
    pub revolve: bool,
}

/// Flips each toggle whose key was just pressed and keeps the others.
pub fn toggle_sim(sim: &mut SimState, rotation_key: bool, revolution_key: bool, time_key: bool)
    ensures
        final(sim).rotation == (old(sim).rotation != rotation_key),
        final(sim).revolution == (old(sim).revolution != revolution_key),
        final(sim).time == (old(sim).time != time_key),
{
    if rotation_key {
        sim.rotation = !sim.rotation;
    }
    if revolution_key {
        sim.revolution = !sim.revolution;
    }
    if time_key {
        sim.time = !sim.time;
    }
}

/// One simulation step: ticks the clock when time is switched on, and says
/// which motions the driver applies to the non-orbiting bodies. Orbiting
/// bodies are then placed from the clock as it stands after this call.
pub fn simulation(now: &mut Now, sim: &SimState) -> (r: StepActions)
    ensures
        final(now).0@ == (if sim.time { next_tick(old(now).0@) } else { old(now).0@ }),
        r.rotate == sim.rotation,
        r.revolve == sim.revolution,
{
    if sim.time {
        now.0.tick();
    }
    StepActions { rotate: sim.rotation, revolve: sim.revolution }
}

} // verus!
