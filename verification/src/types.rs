//! Shared data types: colors, turtle stats, gene values and trait sets.
//!
//! Fractional quantities are fixed-point integers in milli-units
//! (1000 = 1.0).

use vstd::prelude::*;
use crate::math::{isqrt, sqrt_floor};

verus! {

/// The fixed-point unit: 1000 milli-units stand for 1.0.
pub const MILLI: u64 = 1000;

/// Largest stat value accepted (1000.0 in game units), so that every
/// physics product fits comfortably in a `u64`.
pub const STAT_MAX: u64 = 1000000;

/// Largest magnitude accepted for a continuous gene bound
/// (one billion game units, in milli-units).
pub const CONT_BOUND: i64 = 1000000000000;

/// RGB color, one byte per channel.
#[derive(Clone, Copy, Debug, PartialEq, Eq, Structural)]
pub struct Rgb {
    pub r: u8,
    pub g: u8,
    pub b: u8,
}

/// Squared difference of one channel pair.
pub open spec fn channel_diff_sq(a: u8, b: u8) -> int {
    (a - b) * (a - b)
}

/// Sum of squared channel differences between two colors.
pub open spec fn dist_sq(a: Rgb, b: Rgb) -> int {
    channel_diff_sq(a.r, b.r) + channel_diff_sq(a.g, b.g) + channel_diff_sq(a.b, b.b)
}

/// Euclidean color distance in milli-units: floor(1000 * sqrt(dist_sq)).
pub open spec fn spec_distance(a: Rgb, b: Rgb) -> nat {
    sqrt_floor((dist_sq(a, b) * 1000000) as nat)
}

/// The squared color distance never exceeds three times the largest
/// squared channel difference.
pub proof fn lemma_dist_sq_bound(a: Rgb, b: Rgb)
    ensures
        0 <= dist_sq(a, b) <= 195075,
{
    assert(0 <= channel_diff_sq(a.r, b.r) <= 65025 && 0 <= channel_diff_sq(a.g, b.g) <= 65025 && 0
        <= channel_diff_sq(a.b, b.b) <= 65025) by (nonlinear_arith)
        requires
            a.r <= 255, b.r <= 255, a.g <= 255, b.g <= 255, a.b <= 255, b.b <= 255,
    ;
}

/// One blended channel: a two-point interpolation with `bias` in [0, 1000],
/// 0 keeping `a` and 1000 taking `b`, rounded down.
pub open spec fn blend_channel(a: u8, b: u8, bias: u64) -> u8 {
    (((a as int) * (1000 - bias) + (b as int) * bias) / 1000) as u8
}

/// Blend of two colors under a shared bias.
pub open spec fn spec_blend(a: Rgb, b: Rgb, bias: u64) -> Rgb {
    Rgb {
        r: blend_channel(a.r, b.r, bias),
        g: blend_channel(a.g, b.g, bias),
        b: blend_channel(a.b, b.b, bias),
    }
}

proof fn lemma_blend_channel_bound(a: u8, b: u8, bias: u64)
    requires
        bias <= 1000,
    ensures
        0 <= (a as int) * (1000 - bias) + (b as int) * bias <= 255000,
{
    assert((a as int) * (1000 - bias) <= 255 * (1000 - bias) && (b as int) * bias <= 255 * bias
        && (a as int) * (1000 - bias) >= 0 && (b as int) * bias >= 0 && 255 * (1000 - bias) + 255
        * bias == 255000) by (nonlinear_arith)
        requires a <= 255, b <= 255, 0 <= bias <= 1000,
    ;
}

fn blend_channel_exec(a: u8, b: u8, bias: u64) -> (r: u8)
    requires
        bias <= 1000,
    ensures
        r == blend_channel(a, b, bias),
{
    proof {
        lemma_blend_channel_bound(a, b, bias);
    }
    let num: u64 = (a as u64) * (1000 - bias) + (b as u64) * bias;
    (num / 1000) as u8
}

impl Rgb {
    pub fn new(r: u8, g: u8, b: u8) -> (c: Rgb)
        ensures
            c == (Rgb { r, g, b }),
    {
        Rgb { r, g, b }
    }

    /// Build from an (r, g, b) triple.
    pub fn from_tuple(tuple: (u8, u8, u8)) -> (c: Rgb)
        ensures
            c == (Rgb { r: tuple.0, g: tuple.1, b: tuple.2 }),
    {
        Rgb { r: tuple.0, g: tuple.1, b: tuple.2 }
    }

    /// The (r, g, b) triple.
    pub fn to_tuple(&self) -> (t: (u8, u8, u8))
        ensures
            t == (self.r, self.g, self.b),
    {
        (self.r, self.g, self.b)
    }

    /// Euclidean distance between two colors, in milli-units
    /// (0 for equal colors, 441672 between black and white).
    pub fn distance(&self, other: &Rgb) -> (d: u64)
        ensures
            d == spec_distance(*self, *other),
    {
        let dr: u64 = if self.r >= other.r {
            (self.r - other.r) as u64
        } else {
            (other.r - self.r) as u64
        };
        let dg: u64 = if self.g >= other.g {
            (self.g - other.g) as u64
        } else {
            (other.g - self.g) as u64
        };
        let db: u64 = if self.b >= other.b {
            (self.b - other.b) as u64
        } else {
            (other.b - self.b) as u64
        };
        proof {
            assert(dr * dr == channel_diff_sq(self.r, other.r) && dg * dg == channel_diff_sq(
                self.g, other.g) && db * db == channel_diff_sq(self.b, other.b) && dr * dr <= 65025
                && dg * dg <= 65025 && db * db <= 65025) by (nonlinear_arith)
                requires
                    dr == if self.r >= other.r { self.r - other.r } else { other.r - self.r },
                    dg == if self.g >= other.g { self.g - other.g } else { other.g - self.g },
                    db == if self.b >= other.b { self.b - other.b } else { other.b - self.b },
                    dr <= 255, dg <= 255, db <= 255,
            ;
        }
        let sum_sq: u64 = dr * dr + dg * dg + db * db;
        isqrt(sum_sq * 1000000)
    }

    /// Interpolate toward `other` with `bias` in milli-units
    /// (0 keeps `self`, 1000 takes `other`); larger biases are clamped.
    pub fn blend(&self, other: &Rgb, bias: u64) -> (c: Rgb)
        ensures
            c == spec_blend(*self, *other, if bias <= 1000 { bias } else { 1000 }),
    {
        let bias_c: u64 = if bias <= 1000 { bias } else { 1000 };
        Rgb {
            r: blend_channel_exec(self.r, other.r, bias_c),
            g: blend_channel_exec(self.g, other.g, bias_c),
            b: blend_channel_exec(self.b, other.b, bias_c),
        }
    }
}

impl Default for Rgb {
    /// Mid gray.
    fn default() -> (c: Rgb)
        ensures
            c == (Rgb { r: 128, g: 128, b: 128 }),
    {
        Rgb { r: 128, g: 128, b: 128 }
    }
}

/// Blending a color with itself returns it unchanged, whatever the bias.
pub proof fn lemma_blend_self(a: Rgb, bias: u64)
    requires
        bias <= 1000,
    ensures
        spec_blend(a, a, bias) == a,
{
    assert forall|ch: u8| #[trigger] blend_channel(ch, ch, bias) == ch by {
        assert((ch as int) * (1000 - bias) + (ch as int) * bias == (ch as int) * 1000)
            by (nonlinear_arith);
        assert((ch as int) * 1000 / 1000 == ch as int) by (nonlinear_arith);
    }
    assert(spec_blend(a, a, bias) == a);
}

/// Fixed per-character stats, in milli-units (5000 = 5.0).
#[derive(Clone, Copy, Debug, PartialEq, Eq, Structural)]
pub struct TurtleStats {
    pub speed: u64,
    pub max_energy: u64,
    pub recovery: u64,
    pub swim: u64,
    pub climb: u64,
    pub stamina: u64,
    pub luck: u64,
}

impl TurtleStats {
    /// All stats positive and small enough for the physics arithmetic.
    pub open spec fn wf(self) -> bool {
        &&& 0 < self.speed <= STAT_MAX
        &&& 0 < self.max_energy <= STAT_MAX
        &&& 0 < self.recovery <= STAT_MAX
        &&& 0 < self.swim <= STAT_MAX
        &&& 0 < self.climb <= STAT_MAX
        &&& 0 < self.stamina <= STAT_MAX
        &&& 0 < self.luck <= STAT_MAX
    }
}

impl Default for TurtleStats {
    /// The baseline racer: speed 5.0, energy 100.0, recovery 5.0,
    /// swim 5.0, climb 5.0, stamina 3.0, luck 3.0.
    fn default() -> (s: TurtleStats)
        ensures
            s == (TurtleStats {
                speed: 5000,
                max_energy: 100000,
                recovery: 5000,
                swim: 5000,
                climb: 5000,
                stamina: 3000,
                luck: 3000,
            }),
            s.wf(),
    {
        TurtleStats {
            speed: 5000,
            max_energy: 100000,
            recovery: 5000,
            swim: 5000,
            climb: 5000,
            stamina: 3000,
            luck: 3000,
        }
    }
}

/// A single gene's value: a color, a named option, or a continuous
/// quantity in milli-units.
#[derive(Debug, PartialEq)]
pub enum GeneValue {
    Rgb(Rgb),
    Discrete(String),
    Continuous(i64),
}

impl GeneValue {
    /// A copy that is equal to the original.
    pub fn duplicate(&self) -> (r: GeneValue)
        ensures
            r == *self,
    {
        match self {
            GeneValue::Rgb(c) => GeneValue::Rgb(*c),
            GeneValue::Discrete(s) => GeneValue::Discrete(s.clone()),
            GeneValue::Continuous(f) => GeneValue::Continuous(*f),
        }
    }

    /// The color, for color-valued genes.
    pub fn as_rgb(&self) -> (r: Option<&Rgb>)
        ensures
            match r {
                Some(c) => *self == GeneValue::Rgb(*c),
                None => !(self is Rgb),
            },
    {
        match self {
            GeneValue::Rgb(c) => Some(c),
            _ => None,
        }
    }

    /// The option name, for discrete genes.
    pub fn as_discrete(&self) -> (r: Option<&str>)
        ensures
            match r {
                Some(s) => *self matches GeneValue::Discrete(t) && t@ == s@,
                None => !(self is Discrete),
            },
    {
        match self {
            GeneValue::Discrete(s) => Some(s.as_str()),
            _ => None,
        }
    }

    /// The milli-unit quantity, for continuous genes.
    pub fn as_continuous(&self) -> (r: Option<i64>)
        ensures
            match r {
                Some(f) => *self == GeneValue::Continuous(f),
                None => !(self is Continuous),
            },
    {
        match self {
            GeneValue::Continuous(f) => Some(*f),
            _ => None,
        }
    }
}

/// Why an externally supplied gene value was rejected.
#[derive(Clone, Copy, Debug, PartialEq, Eq, Structural)]
pub enum GeneError {
    /// The value's shape does not match the gene's declared kind.
    KindMismatch,
    /// A discrete value outside the gene's option set.
    DomainViolation,
}

/// No two entries share a key.
pub open spec fn unique_keys(s: Seq<(String, GeneValue)>) -> bool {
    forall|i: int, j: int| 0 <= i < j < s.len() ==> s[i].0@ != s[j].0@
}

/// The mapping an entry list stands for (later entries win).
pub open spec fn map_of(s: Seq<(String, GeneValue)>) -> Map<Seq<char>, GeneValue>
    decreases s.len(),
{
    if s.len() == 0 {
        Map::empty()
    } else {
        map_of(s.drop_last()).insert(s.last().0@, s.last().1)
    }
}

/// A key is in the mapping exactly when some entry carries it.
pub proof fn lemma_map_of_domain(s: Seq<(String, GeneValue)>, k: Seq<char>)
    ensures
        map_of(s).contains_key(k) <==> exists|i: int| 0 <= i < s.len() && s[i].0@ == k,
    decreases s.len(),
{
    if s.len() > 0 {
        lemma_map_of_domain(s.drop_last(), k);
        if s.last().0@ == k {
            assert(s[s.len() - 1].0@ == k);
        } else if map_of(s).contains_key(k) {
            let i = choose|i: int| 0 <= i < s.len() - 1 && s.drop_last()[i].0@ == k;
            assert(s[i].0@ == k);
        } else if exists|i: int| 0 <= i < s.len() && s[i].0@ == k {
            let i = choose|i: int| 0 <= i < s.len() && s[i].0@ == k;
            assert(s.drop_last()[i].0@ == k);
        }
    }
}

/// With unique keys, the mapping sends each entry's key to its value.
pub proof fn lemma_map_of_index(s: Seq<(String, GeneValue)>, i: int)
    requires
        unique_keys(s),
        0 <= i < s.len(),
    ensures
        map_of(s).contains_key(s[i].0@),
        map_of(s)[s[i].0@] == s[i].1,
    decreases s.len(),
{
    if i == s.len() - 1 {
        assert(map_of(s) == map_of(s.drop_last()).insert(s.last().0@, s.last().1));
    } else {
        assert(unique_keys(s.drop_last())) by {
            assert(forall|a: int, b: int| 0 <= a < b < s.len() - 1
                ==> s.drop_last()[a].0@ == s[a].0@ && s.drop_last()[b].0@ == s[b].0@);
        }
        lemma_map_of_index(s.drop_last(), i);
        assert(s[i].0@ != s.last().0@);
    }
}

/// A set of typed trait values keyed by gene name; possibly partial.
///
/// Abstractly a finite map from gene name to value; concretely an
/// entry list without repeated keys.
#[derive(Debug)]
pub struct TraitSet {
    pub entries: Vec<(String, GeneValue)>,
}

impl View for TraitSet {
    type V = Map<Seq<char>, GeneValue>;

    open spec fn view(&self) -> Map<Seq<char>, GeneValue> {
        map_of(self.entries@)
    }
}

impl TraitSet {
    /// The underlying entry list.
    pub open spec fn kv(self) -> Seq<(String, GeneValue)> {
        self.entries@
    }

    /// Entry keys are pairwise distinct.
    pub open spec fn wf(self) -> bool {
        unique_keys(self.entries@)
    }

    /// The empty trait set.
    pub fn new() -> (t: TraitSet)
        ensures
            t.wf(),
            t@ == Map::<Seq<char>, GeneValue>::empty(),
            t.kv().len() == 0,
    {
        TraitSet { entries: Vec::new() }
    }

    /// Number of genes present.
    pub fn len(&self) -> (n: usize)
        ensures
            n == self.kv().len(),
    {
        self.entries.len()
    }

    /// The entry at a position, in insertion order.
    pub fn entry_at(&self, i: usize) -> (e: &(String, GeneValue))
        requires
            i < self.kv().len(),
        ensures
            *e == self.kv()[i as int],
    {
        &self.entries[i]
    }

    /// Look a gene up by name.
    pub fn get(&self, name: &str) -> (r: Option<&GeneValue>)
        requires
            self.wf(),
        ensures
            match r {
                Some(v) => self@.contains_key(name@) && *v == self@[name@],
                None => !self@.contains_key(name@),
            },
    {
        let key: String = name.to_owned();
        let n: usize = self.entries.len();
        let mut i: usize = 0;
        while i < n
            invariant
                n == self.kv().len(),
                i <= n,
                self.wf(),
                key@ == name@,
                forall|j: int| 0 <= j < i ==> self.kv()[j].0@ != name@,
            decreases n - i,
        {
            if self.entries[i].0 == key {
                proof {
                    lemma_map_of_index(self.kv(), i as int);
                }
                return Some(&self.entries[i].1);
            }
            i += 1;
        }
        proof {
            lemma_map_of_domain(self.kv(), name@);
        }
        None
    }

    /// Insert or replace one gene's value.
    pub fn set(&mut self, name: String, value: GeneValue)
        requires
            old(self).wf(),
        ensures
            final(self).wf(),
            final(self)@ == old(self)@.insert(name@, value),
            final(self).kv().len() <= old(self).kv().len() + 1,
    {
        let n: usize = self.entries.len();
        let mut i: usize = 0;
        while i < n
            invariant
                self == old(self),
                n == self.kv().len(),
                i <= n,
                self.wf(),
                forall|j: int| 0 <= j < i ==> self.kv()[j].0@ != name@,
            decreases n - i,
        {
            if self.entries[i].0 == name {
                self.entries[i] = (name, value);
                proof {
                    lemma_set_replace(old(self).kv(), self.kv(), i as int);
                }
                return ;
            }
            i += 1;
        }
        self.entries.push((name, value));
        proof {
            assert(self.kv().drop_last() =~= old(self).kv());
            assert(forall|j: int| 0 <= j < old(self).kv().len()
                ==> self.kv()[j] == old(self).kv()[j]);
        }
    }
}

/// Replacing the entry at `i` by one with the same key rewrites exactly
/// that key's image in the mapping.
proof fn lemma_set_replace(s0: Seq<(String, GeneValue)>, s1: Seq<(String, GeneValue)>, i: int)
    requires
        unique_keys(s0),
        0 <= i < s0.len(),
        s1.len() == s0.len(),
        s1[i].0@ == s0[i].0@,
        forall|j: int| 0 <= j < s0.len() && j != i ==> s1[j] == s0[j],
    ensures
        unique_keys(s1),
        map_of(s1) == map_of(s0).insert(s0[i].0@, s1[i].1),
    decreases s0.len(),
{
    assert(forall|a: int, b: int| 0 <= a < b < s1.len() ==> s1[a].0@ != s1[b].0@) by {
        assert(forall|j: int| 0 <= j < s0.len() ==> s1[j].0@ == s0[j].0@);
    }
    if i == s0.len() - 1 {
        assert(s1.drop_last() =~= s0.drop_last());
        assert(map_of(s1) =~= map_of(s0).insert(s0[i].0@, s1[i].1)) by {
            assert(map_of(s0) == map_of(s0.drop_last()).insert(s0.last().0@, s0.last().1));
        }
    } else {
        lemma_set_replace(s0.drop_last(), s1.drop_last(), i);
        assert(s1.last() == s0.last());
        assert(map_of(s1) == map_of(s1.drop_last()).insert(s0.last().0@, s0.last().1));
        assert(map_of(s1) =~= map_of(s0).insert(s0[i].0@, s1[i].1)) by {
            assert(s0[i].0@ != s0.last().0@);
        }
    }
}

} // verus!
