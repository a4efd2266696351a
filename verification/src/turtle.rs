//! A racing turtle: fixed stats plus per-race state, updated once per
//! tick by a three-state machine (moving / resting / finished).

use vstd::prelude::*;
use vstd::string::StrSliceExecFns;
use crate::terrain::{Terrain, TerrainType};
use crate::types::TurtleStats;

verus! {

/// Upper bound on the distance one tick can add, in milli-units.
pub const MOVE_MAX: u64 = 2000000000000000;

/// Energy recovered per resting tick: recovery * 0.1 * (1 + stamina/20),
/// in milli-units.
pub open spec fn spec_recovery_gain(stats: TurtleStats) -> int {
    (stats.recovery * (20000 + stats.stamina)) / 200000
}

/// Energy drained per moving tick: 0.5 * 0.8 * energy_drain, in
/// milli-units.
pub open spec fn spec_drain(t: Terrain) -> int {
    (400 * t.energy_drain) / 1000
}

/// Distance covered in one moving tick: speed scaled by the terrain's
/// kind-specific multiplier, in milli-units.
pub open spec fn spec_movement(stats: TurtleStats, energy: u64, t: Terrain) -> int {
    match t.terrain_type {
        TerrainType::Water => (stats.speed * stats.swim * t.speed_modifier) / 10000000,
        TerrainType::Rocks => (stats.speed * stats.climb * t.speed_modifier) / 10000000,
        TerrainType::Sand => (stats.speed * (15000 + stats.recovery) * t.speed_modifier)
            / 15000000,
        TerrainType::Mud => (stats.speed * energy * t.speed_modifier) / (stats.max_energy * 1000),
        TerrainType::Boost => (stats.speed * t.speed_modifier * 1200) / 1000000,
        TerrainType::Normal => (stats.speed * t.speed_modifier) / 1000,
    }
}

/// One physics tick as a function of the state: the turtle afterwards
/// and the distance moved.
///
/// Finished: nothing changes and no distance is covered. Resting:
/// energy recovers (capped at capacity); once it reaches half of
/// capacity the turtle is moving again from the next tick; no distance
/// this tick. Moving: the terrain-modulated movement is covered,
/// energy drains (saturating at 0), and at exactly 0 the turtle starts
/// resting.
pub open spec fn physics_step(t: Turtle, terrain: Terrain) -> (Turtle, int) {
    if t.finished {
        (t, 0)
    } else if t.is_resting {
        let gained = t.current_energy + spec_recovery_gain(t.stats);
        let e = if gained <= t.stats.max_energy { gained } else { t.stats.max_energy as int };
        (Turtle { current_energy: e as u64, is_resting: !(2 * e >= t.stats.max_energy), ..t }, 0)
    } else {
        let drained = t.current_energy - spec_drain(terrain);
        let e = if drained >= 0 { drained } else { 0 };
        (
            Turtle { current_energy: e as u64, is_resting: e == 0, ..t },
            spec_movement(t.stats, t.current_energy, terrain),
        )
    }
}

/// A turtle whose energy is exhausted starts resting, and a resting
/// turtle covers no distance and keeps resting on every tick until its
/// energy has recovered to half of capacity, after which it moves
/// again.
pub proof fn lemma_rest_until_recovered(t: Turtle, terrain: Terrain)
    ensures
        !t.finished && !t.is_resting && t.current_energy <= spec_drain(terrain)
            ==> physics_step(t, terrain).0.is_resting,
        !t.finished && t.is_resting ==> physics_step(t, terrain).1 == 0,
        !t.finished && t.is_resting && 2 * (t.current_energy + spec_recovery_gain(t.stats)) < (
        t.stats.max_energy as int) ==> physics_step(t, terrain).0.is_resting,
        !t.finished && t.is_resting && t.current_energy + spec_recovery_gain(t.stats) <= (
        t.stats.max_energy as int) && 2 * (t.current_energy + spec_recovery_gain(t.stats)) >= (
        t.stats.max_energy as int) ==> !physics_step(t, terrain).0.is_resting,
{
}

/// Relies on uuid's `Uuid::new_v4` and its hyphenated rendering: a
/// fresh random identifier of 36 ASCII characters.
#[verifier::external_body]
fn fresh_uuid() -> (s: String)
    ensures
        s@.len() == 36,
        vstd::utf8::is_ascii_chars(s@),
{
    uuid::Uuid::new_v4().to_string()
}

/// A racing turtle.
#[derive(Debug)]
pub struct Turtle {
    pub id: String,
    pub name: String,
    pub stats: TurtleStats,
    pub current_energy: u64,
    pub race_distance: u64,
    pub is_resting: bool,
    pub finished: bool,
}

impl Turtle {
    /// Stats in range and energy within capacity.
    pub open spec fn wf(self) -> bool {
        self.stats.wf() && self.current_energy <= self.stats.max_energy
    }

    /// A fresh turtle with full energy at the starting line and a
    /// random 8-character identifier.
    pub fn new(name: String, stats: TurtleStats) -> (t: Turtle)
        requires
            stats.wf(),
        ensures
            t.wf(),
            t.name@ == name@,
            t.stats == stats,
            t.current_energy == stats.max_energy,
            t.race_distance == 0,
            !t.is_resting,
            !t.finished,
            t.id@.len() == 8,
    {
        let full: String = fresh_uuid();
        let id: String = full.as_str().substring_ascii(0, 8).to_owned();
        Turtle {
            id,
            name,
            stats,
            current_energy: stats.max_energy,
            race_distance: 0,
            is_resting: false,
            finished: false,
        }
    }

    /// Put the turtle back on the starting line with full energy.
    pub fn reset_for_race(&mut self)
        ensures
            final(self).id == old(self).id,
            final(self).name == old(self).name,
            final(self).stats == old(self).stats,
            final(self).current_energy == old(self).stats.max_energy,
            final(self).race_distance == 0,
            !final(self).is_resting,
            !final(self).finished,
            old(self).stats.wf() ==> final(self).wf(),
    {
        self.current_energy = self.stats.max_energy;
        self.race_distance = 0;
        self.is_resting = false;
        self.finished = false;
    }

    /// Advance the state machine one tick on the given terrain and
    /// return the distance moved: exactly `physics_step` of the state.
    pub fn update_physics(&mut self, terrain: &Terrain) -> (movement: u64)
        requires
            old(self).wf(),
            terrain.wf(),
        ensures
            final(self).wf(),
            movement <= MOVE_MAX,
            (*final(self), movement as int) == physics_step(*old(self), *terrain),
    {
        if self.finished {
            return 0;
        }
        if self.is_resting {
            proof {
                assert(0 <= self.stats.recovery * (20000 + self.stats.stamina)
                    <= 1020000000000) by (nonlinear_arith)
                    requires
                        self.stats.recovery <= 1000000,
                        self.stats.stamina <= 1000000,
                ;
            }
            let gain: u64 = (self.stats.recovery * (20000 + self.stats.stamina)) / 200000;
            let gained: u64 = self.current_energy + gain;
            self.current_energy = if gained <= self.stats.max_energy {
                gained
            } else {
                self.stats.max_energy
            };
            if 2 * self.current_energy >= self.stats.max_energy {
                self.is_resting = false;
            }
            return 0;
        }
        let movement: u64 = movement_exec(&self.stats, self.current_energy, terrain);
        let drain: u64 = (400 * terrain.energy_drain) / 1000;
        if self.current_energy > drain {
            self.current_energy = self.current_energy - drain;
        } else {
            self.current_energy = 0;
            self.is_resting = true;
        }
        movement
    }
}

/// Compute the moving-tick distance; each branch fits in a `u64` and
/// stays below `MOVE_MAX` thanks to the stat and modifier caps.
fn movement_exec(stats: &TurtleStats, energy: u64, terrain: &Terrain) -> (movement: u64)
    requires
        stats.wf(),
        terrain.wf(),
        energy <= stats.max_energy,
    ensures
        movement == spec_movement(*stats, energy, *terrain),
        movement <= MOVE_MAX,
{
    let speed: u64 = stats.speed;
    let m: u64 = terrain.speed_modifier;
    match terrain.terrain_type {
        TerrainType::Water => {
            proof {
                lemma_triple_bound(speed as int, stats.swim as int, m as int);
            }
            (speed * stats.swim * m) / 10000000
        },
        TerrainType::Rocks => {
            proof {
                lemma_triple_bound(speed as int, stats.climb as int, m as int);
            }
            (speed * stats.climb * m) / 10000000
        },
        TerrainType::Sand => {
            proof {
                assert(speed * (15000 + stats.recovery) <= 1015000000000 && speed * (15000
                    + stats.recovery) * m <= 1015000000000000000)
                    by (nonlinear_arith)
                    requires
                        speed <= 1000000,
                        stats.recovery <= 1000000,
                        m <= 1000000,
                ;
            }
            (speed * (15000 + stats.recovery) * m) / 15000000
        },
        TerrainType::Mud => {
            proof {
                lemma_triple_bound(speed as int, energy as int, m as int);
                assert((speed * energy * m) / (stats.max_energy * 1000) <= (speed * energy * m)
                    / 1000) by {
                    vstd::arithmetic::div_mod::lemma_div_is_ordered_by_denominator(
                        (speed * energy * m) as int, 1000, (stats.max_energy * 1000) as int);
                }
            }
            (speed * energy * m) / (stats.max_energy * 1000)
        },
        TerrainType::Boost => {
            proof {
                lemma_triple_bound(speed as int, m as int, 1200);
            }
            (speed * m * 1200) / 1000000
        },
        TerrainType::Normal => {
            proof {
                assert(0 <= speed * m <= 1000000000000) by (nonlinear_arith)
                    requires speed <= 1000000, m <= 1000000,
                ;
            }
            (speed * m) / 1000
        },
    }
}

/// Bound on a product of three factors each at most a million (or, for
/// the middle one, at most `STAT_MAX`-sized quantities).
proof fn lemma_triple_bound(a: int, b: int, c: int)
    requires
        0 <= a <= 1000000,
        0 <= b <= 1000000,
        0 <= c <= 1200000,
    ensures
        0 <= a * b <= 1000000000000,
        0 <= a * b * c <= 1200000000000000000,
        a * b * c / 10000000 <= MOVE_MAX,
        a * b * c / 1000000 <= MOVE_MAX,
        a * b * c / 1000 <= MOVE_MAX,
{
    assert(0 <= a * b <= 1000000000000 && 0 <= a * b * c <= 1200000000000000000)
        by (nonlinear_arith)
        requires 0 <= a <= 1000000, 0 <= b <= 1000000, 0 <= c <= 1200000,
    ;
}

} // verus!
