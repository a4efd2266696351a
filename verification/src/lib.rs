//! Heritable-trait genetics and a tick-based turtle race simulation.
//!
//! All quantities that the game treats as fractional (stats, energy,
//! distances, gene values, rates, similarity scores) are carried as
//! fixed-point integers in milli-units: the integer 1000 stands for 1.0.

pub mod genes;
pub mod inheritance;
pub mod math;
pub mod mutation;
pub mod noise;
pub mod race;
pub mod rng;
pub mod terrain;
pub mod turtle;
pub mod types;

pub use genes::{GeneDefinition, GeneDefinitions, GeneKind};
pub use inheritance::{Inheritance, MAX_COLOR_DIST};
pub use math::isqrt;
pub use mutation::Mutation;
pub use race::{Race, MAX_TICKS, SEGMENT_SIZE};
pub use rng::Prng;
pub use terrain::{Terrain, TerrainType, MOD_MAX, TRACK_MAX};
pub use turtle::{Turtle, MOVE_MAX};
pub use types::{GeneError, GeneValue, Rgb, TraitSet, TurtleStats, CONT_BOUND, MILLI, STAT_MAX};
