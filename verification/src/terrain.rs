//! Terrain kinds, their movement/energy modifiers, and track generation.

use vstd::prelude::*;
use vstd::string::StringSliceAdditionalSpecFns;
use crate::rng::Prng;

verus! {

/// Largest track length or segment size accepted, in milli-units.
pub const TRACK_MAX: u64 = 1000000000000;

/// Largest terrain modifier accepted, in milli-units (1000.0).
pub const MOD_MAX: u64 = 1000000;

/// The six kinds of track segment.
#[derive(Clone, Copy, Debug, PartialEq, Eq, Structural)]
pub enum TerrainType {
    Normal,
    Water,
    Rocks,
    Sand,
    Mud,
    Boost,
}

/// ASCII lower-casing of one byte.
pub open spec fn lower_byte(b: u8) -> u8 {
    if 65 <= b && b <= 90 {
        (b + 32) as u8
    } else {
        b
    }
}

/// ASCII lower-casing of a byte string.
pub open spec fn folded(s: Seq<u8>) -> Seq<u8> {
    s.map_values(|b: u8| lower_byte(b))
}

/// Which terrain kind a name denotes, case-insensitively; anything
/// unrecognized is Normal.
pub open spec fn spec_terrain_of(s: Seq<u8>) -> TerrainType {
    let f = folded(s);
    if f == seq![119u8, 97u8, 116u8, 101u8, 114u8] {
        TerrainType::Water
    } else if f == seq![114u8, 111u8, 99u8, 107u8, 115u8] {
        TerrainType::Rocks
    } else if f == seq![115u8, 97u8, 110u8, 100u8] {
        TerrainType::Sand
    } else if f == seq![109u8, 117u8, 100u8] {
        TerrainType::Mud
    } else if f == seq![98u8, 111u8, 111u8, 115u8, 116u8] {
        TerrainType::Boost
    } else {
        TerrainType::Normal
    }
}

fn lower_byte_exec(b: u8) -> (r: u8)
    ensures
        r == lower_byte(b),
{
    if 65 <= b && b <= 90 {
        b + 32
    } else {
        b
    }
}

/// Does `bs` spell `w` up to ASCII case?
fn word_matches(bs: &[u8], w: &Vec<u8>) -> (r: bool)
    ensures
        r == (folded(bs@) == w@),
{
    if bs.len() != w.len() {
        proof {
            assert(folded(bs@).len() == bs@.len());
        }
        return false;
    }
    let n: usize = bs.len();
    let mut i: usize = 0;
    while i < n
        invariant
            n == bs@.len() == w@.len(),
            i <= n,
            forall|j: int| 0 <= j < i ==> folded(bs@)[j] == w@[j],
        decreases n - i,
    {
        if lower_byte_exec(bs[i]) != w[i] {
            proof {
                assert(folded(bs@)[i as int] == lower_byte(bs@[i as int]));
            }
            return false;
        }
        i += 1;
    }
    proof {
        assert(folded(bs@) =~= w@);
    }
    true
}

impl TerrainType {
    /// Parse a terrain name, case-insensitively; unrecognized input
    /// gives Normal.
    pub fn from_str(s: &str) -> (t: TerrainType)
        ensures
            t == spec_terrain_of(s.spec_bytes()),
    {
        let bs: &[u8] = s.as_bytes();
        let water: Vec<u8> = vec![119u8, 97u8, 116u8, 101u8, 114u8];
        let rocks: Vec<u8> = vec![114u8, 111u8, 99u8, 107u8, 115u8];
        let sand: Vec<u8> = vec![115u8, 97u8, 110u8, 100u8];
        let mud: Vec<u8> = vec![109u8, 117u8, 100u8];
        let boost: Vec<u8> = vec![98u8, 111u8, 111u8, 115u8, 116u8];
        if word_matches(bs, &water) {
            TerrainType::Water
        } else if word_matches(bs, &rocks) {
            TerrainType::Rocks
        } else if word_matches(bs, &sand) {
            TerrainType::Sand
        } else if word_matches(bs, &mud) {
            TerrainType::Mud
        } else if word_matches(bs, &boost) {
            TerrainType::Boost
        } else {
            TerrainType::Normal
        }
    }
}

/// A track segment: a kind plus its speed and energy-drain modifiers,
/// in milli-units.
#[derive(Clone, Copy, Debug, PartialEq, Eq, Structural)]
pub struct Terrain {
    pub terrain_type: TerrainType,
    pub speed_modifier: u64,
    pub energy_drain: u64,
}

/// The fixed modifiers of the six canonical segment kinds.
pub open spec fn canonical_terrain(k: TerrainType) -> Terrain {
    match k {
        TerrainType::Normal => Terrain { terrain_type: k, speed_modifier: 1000, energy_drain: 1000 },
        TerrainType::Water => Terrain { terrain_type: k, speed_modifier: 700, energy_drain: 1200 },
        TerrainType::Rocks => Terrain { terrain_type: k, speed_modifier: 600, energy_drain: 1300 },
        TerrainType::Sand => Terrain { terrain_type: k, speed_modifier: 800, energy_drain: 1100 },
        TerrainType::Mud => Terrain { terrain_type: k, speed_modifier: 500, energy_drain: 1500 },
        TerrainType::Boost => Terrain { terrain_type: k, speed_modifier: 1500, energy_drain: 800 },
    }
}

/// Is this one of the six canonical segments?
pub open spec fn is_canonical(t: Terrain) -> bool {
    t == canonical_terrain(t.terrain_type)
}

/// Number of fixed-size segments needed to cover a track.
pub open spec fn spec_num_segments(length: u64, segment_size: u64) -> int {
    (length + segment_size - 1) / (segment_size as int)
}

impl Terrain {
    /// Modifiers small enough for the physics arithmetic.
    pub open spec fn wf(self) -> bool {
        self.speed_modifier <= MOD_MAX && self.energy_drain <= MOD_MAX
    }

    pub fn new(terrain_type: TerrainType, speed_modifier: u64, energy_drain: u64) -> (t: Terrain)
        requires
            speed_modifier <= MOD_MAX,
            energy_drain <= MOD_MAX,
        ensures
            t == (Terrain { terrain_type, speed_modifier, energy_drain }),
            t.wf(),
    {
        Terrain { terrain_type, speed_modifier, energy_drain }
    }

    /// Build a segment from a terrain name and explicit modifiers.
    pub fn from_str(type_str: &str, speed_modifier: u64, energy_drain: u64) -> (t: Terrain)
        requires
            speed_modifier <= MOD_MAX,
            energy_drain <= MOD_MAX,
        ensures
            t == (Terrain {
                terrain_type: spec_terrain_of(type_str.spec_bytes()),
                speed_modifier,
                energy_drain,
            }),
            t.wf(),
    {
        Terrain { terrain_type: TerrainType::from_str(type_str), speed_modifier, energy_drain }
    }

    /// Generate `ceil(length / segment_size)` segments, each drawn
    /// independently: 60% Normal, 15% Water, 10% Rocks, 8% Sand,
    /// 4% Mud, 3% Boost.
    pub fn generate_track(length: u64, segment_size: u64, rng: &mut Prng) -> (track: Vec<Terrain>)
        requires
            1 <= segment_size <= TRACK_MAX,
            length <= TRACK_MAX,
        ensures
            track@.len() == spec_num_segments(length, segment_size),
            forall|i: int| 0 <= i < track@.len() ==> is_canonical(#[trigger] track@[i]),
    {
        let num_segments: u64 = (length + segment_size - 1) / segment_size;
        let mut track: Vec<Terrain> = Vec::new();
        let mut i: u64 = 0;
        while i < num_segments
            invariant
                i <= num_segments,
                track@.len() == i,
                forall|j: int| 0 <= j < track@.len() ==> is_canonical(#[trigger] track@[j]),
            decreases num_segments - i,
        {
            let roll: u64 = rng.below(100);
            let seg: Terrain = if roll < 60 {
                Terrain::normal()
            } else if roll < 75 {
                Terrain::water()
            } else if roll < 85 {
                Terrain::rocks()
            } else if roll < 93 {
                Terrain::sand()
            } else if roll < 97 {
                Terrain::mud()
            } else {
                Terrain::boost()
            };
            track.push(seg);
            i += 1;
        }
        track
    }

    pub fn normal() -> (t: Terrain)
        ensures
            t == canonical_terrain(TerrainType::Normal),
    {
        Terrain { terrain_type: TerrainType::Normal, speed_modifier: 1000, energy_drain: 1000 }
    }

    pub fn water() -> (t: Terrain)
        ensures
            t == canonical_terrain(TerrainType::Water),
    {
        Terrain { terrain_type: TerrainType::Water, speed_modifier: 700, energy_drain: 1200 }
    }

    pub fn rocks() -> (t: Terrain)
        ensures
            t == canonical_terrain(TerrainType::Rocks),
    {
        Terrain { terrain_type: TerrainType::Rocks, speed_modifier: 600, energy_drain: 1300 }
    }

    pub fn sand() -> (t: Terrain)
        ensures
            t == canonical_terrain(TerrainType::Sand),
    {
        Terrain { terrain_type: TerrainType::Sand, speed_modifier: 800, energy_drain: 1100 }
    }

    pub fn mud() -> (t: Terrain)
        ensures
            t == canonical_terrain(TerrainType::Mud),
    {
        Terrain { terrain_type: TerrainType::Mud, speed_modifier: 500, energy_drain: 1500 }
    }

    pub fn boost() -> (t: Terrain)
        ensures
            t == canonical_terrain(TerrainType::Boost),
    {
        Terrain { terrain_type: TerrainType::Boost, speed_modifier: 1500, energy_drain: 800 }
    }
}

} // verus!
