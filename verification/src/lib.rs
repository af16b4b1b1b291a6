//! Combat resolution and agent decision-making core of a small action game.
//!
//! The library owns the simulation state: an arena of combat entities with
//! stable integer identifiers, the live attack instances with their hit sets
//! and lifespans, the pending (wound-up) attacks, the stacking timed
//! conditions, and the utility-AI state of each agent.  Every quantity is a
//! plain integer: durations are milliseconds, coordinates are thousandths of
//! a world unit.  The scheduler that supplies the per-tick time delta, the
//! physics service that reports volume overlaps, the input mapper and the
//! presentation layer all live outside and speak to the core through plain
//! values.

use vstd::prelude::*;

pub mod timer;
pub mod math;
pub mod conditions;
pub mod attack;
pub mod agent;
pub mod world;
pub mod animation;
pub mod laws;

verus! {

/// Group tag on every combat-capable entity; attacks only damage entities
/// whose faction differs from the attacker's.
#[derive(Clone, Copy, PartialEq, Eq, Structural, Debug)]
pub struct Faction(pub u32);

/// Hit points of a combat entity.  `current` may go negative: death handling
/// belongs to an outside collaborator.
#[derive(Clone, Copy, PartialEq, Eq, Structural, Debug)]
pub struct Health {
    pub max: i64,
    pub current: i64,
}

impl Health {
    /// A fresh entity starts at full health.
    pub fn new(max: i64) -> (r: Health)
        ensures
            r.max == max,
            r.current == max,
    {
        Health { max, current: max }
    }
}

} // verus!
