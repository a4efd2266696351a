//! Per-gene mutation under a fixed or similarity-adaptive rate.

use vstd::prelude::*;
use crate::genes::{has_option, GeneDefinition, GeneDefinitions, GeneKind};
use crate::inheritance::traits_valid;
use crate::noise::gaussian_milli;
use crate::rng::Prng;
use crate::types::{GeneValue, Rgb, TraitSet};

verus! {

/// `b` is reachable from `a` by adding noise in [-30, 30] and clamping
/// to a byte.
pub open spec fn channel_near(a: u8, b: u8) -> bool {
    &&& (if a >= 30 { a - 30 } else { 0 }) <= b
    &&& b <= (if a + 30 <= 255 { a + 30 } else { 255 })
}

/// Every channel of `c1` is within the mutation noise of `c0`.
pub open spec fn rgb_near(c0: Rgb, c1: Rgb) -> bool {
    channel_near(c0.r, c1.r) && channel_near(c0.g, c1.g) && channel_near(c0.b, c1.b)
}

/// The definition offers an option other than `s`.
pub open spec fn has_alternative(def: GeneDefinition, s: Seq<char>) -> bool {
    def.discrete_options matches Some(o) && exists|i: int| 0 <= i < o@.len() && o@[i]@ != s
}

/// What one mutated gene may become. Colors move each channel by at
/// most 30 (clamped); discrete genes become a different option, or
/// stay put when the domain offers no alternative; continuous genes
/// land somewhere in their declared range; a value whose shape does
/// not match the gene's kind is left untouched.
pub open spec fn mutated_value(def: GeneDefinition, v0: GeneValue, v1: GeneValue) -> bool {
    match (def.kind, v0) {
        (GeneKind::Rgb, GeneValue::Rgb(c0)) => v1 matches GeneValue::Rgb(c1) && rgb_near(c0, c1),
        (GeneKind::Discrete, GeneValue::Discrete(s0)) => v1 matches GeneValue::Discrete(s1) && (
        if has_alternative(def, s0@) {
            has_option(def, s1@) && s1@ != s0@
        } else {
            s1@ == s0@
        }),
        (GeneKind::Continuous, GeneValue::Continuous(f0)) => v1 matches GeneValue::Continuous(f1)
            && (def.continuous_range matches Some(rg) && rg.0 <= f1 <= rg.1),
        _ => v1 == v0,
    }
}

/// What a whole mutation pass may produce: the same gene names, each
/// registered gene either copied or mutated, unregistered genes passed
/// through untouched. A zero rate copies everything; a full rate
/// mutates every registered gene.
pub open spec fn mutation_of(
    reg: GeneDefinitions,
    m0: Map<Seq<char>, GeneValue>,
    m1: Map<Seq<char>, GeneValue>,
    rate: u64,
) -> bool {
    &&& forall|g: Seq<char>| m0.contains_key(g) <==> #[trigger] m1.contains_key(g)
    &&& forall|g: Seq<char>| #[trigger] m0.contains_key(g) ==> if reg.has_gene(g) {
        m1[g] == m0[g] || mutated_value(reg.def_of(g), m0[g], m1[g])
    } else {
        m1[g] == m0[g]
    }
    &&& rate == 0 ==> m1 == m0
    &&& rate >= 1000 ==> forall|g: Seq<char>| #[trigger] m0.contains_key(g) && reg.has_gene(g)
        ==> mutated_value(reg.def_of(g), m0[g], m1[g])
}

/// The mutation rate selected from parent similarity (milli-units):
/// near-identical parents get the strongest diversity pressure.
pub open spec fn adaptive_rate(similarity: u64) -> u64 {
    if similarity > 900 {
        300
    } else if similarity > 700 {
        200
    } else if similarity > 500 {
        100
    } else {
        50
    }
}

/// Perturbs trait sets gene by gene under a mutation rate.
#[derive(Debug)]
pub struct Mutation {
    pub definitions: GeneDefinitions,
}

impl Mutation {
    pub fn new(definitions: GeneDefinitions) -> (r: Mutation)
        ensures
            r.definitions == definitions,
    {
        Mutation { definitions }
    }

    /// Mutate each gene present in the input independently with
    /// probability `rate` (milli-units: 1000 mutates every gene,
    /// 0 none).
    pub fn mutate(&self, genetics: &TraitSet, rate: u64, rng: &mut Prng) -> (out: TraitSet)
        requires
            self.definitions.wf(),
            genetics.wf(),
            traits_valid(self.definitions, genetics@),
        ensures
            out.wf(),
            mutation_of(self.definitions, genetics@, out@, rate),
    {
        let n: usize = genetics.len();
        let mut out: TraitSet = TraitSet::new();
        let mut i: usize = 0;
        while i < n
            invariant
                n == genetics.kv().len(),
                i <= n,
                self.definitions.wf(),
                genetics.wf(),
                traits_valid(self.definitions, genetics@),
                out.wf(),
                forall|g: Seq<char>| #[trigger] out@.contains_key(g) ==> exists|j: int|
                    0 <= j < i && genetics.kv()[j].0@ == g,
                forall|j: int| 0 <= j < i ==> out@.contains_key(#[trigger] genetics.kv()[j].0@),
                forall|j: int| 0 <= j < i ==> {
                    let g = (#[trigger] genetics.kv()[j]).0@;
                    let v0 = genetics.kv()[j].1;
                    if self.definitions.has_gene(g) {
                        out@[g] == v0 || (rate >= 1 && mutated_value(self.definitions.def_of(g),
                            v0, out@[g]))
                    } else {
                        out@[g] == v0
                    }
                },
                forall|j: int| 0 <= j < i && rate >= 1000 && self.definitions.has_gene(
                    (#[trigger] genetics.kv()[j]).0@) ==> mutated_value(self.definitions.def_of(
                    genetics.kv()[j].0@), genetics.kv()[j].1, out@[genetics.kv()[j].0@]),
            decreases n - i,
        {
            let entry: &(String, GeneValue) = genetics.entry_at(i);
            let roll: u64 = rng.below(1000);
            let new_value: GeneValue = if roll < rate {
                match self.definitions.get(entry.0.as_str()) {
                    Some(def) => {
                        proof {
                            let gi = self.definitions.idx_of(entry.0@);
                            assert(self.definitions.def_at(gi).wf());
                            crate::types::lemma_map_of_index(genetics.kv(), i as int);
                            assert(crate::genes::value_ok(self.definitions.def_at(gi),
                                genetics@[self.definitions.name_at(gi)]));
                        }
                        mutate_gene(&entry.1, def, rng)
                    },
                    None => entry.1.duplicate(),
                }
            } else {
                entry.1.duplicate()
            };
            proof {
                crate::types::lemma_map_of_index(genetics.kv(), i as int);
            }
            let ghost pre_map = out@;
            out.set(entry.0.clone(), new_value);
            proof {
                assert forall|g: Seq<char>| #[trigger] out@.contains_key(g) implies exists|j: int|
                    0 <= j < i + 1 && genetics.kv()[j].0@ == g by {
                    if g == genetics.kv()[i as int].0@ {
                        assert(0 <= i < i + 1 && genetics.kv()[i as int].0@ == g);
                    } else {
                        assert(pre_map.contains_key(g));
                    }
                }
                assert forall|j: int| 0 <= j < i + 1 implies genetics.kv()[j].0@
                    != genetics.kv()[i as int].0@ || j == i by {}
            }
            i += 1;
        }
        proof {
            assert forall|g: Seq<char>| genetics@.contains_key(g) <==> #[trigger]
            out@.contains_key(g) by {
                crate::types::lemma_map_of_domain(genetics.kv(), g);
                if genetics@.contains_key(g) {
                    let j = choose|j: int| 0 <= j < n && genetics.kv()[j].0@ == g;
                    assert(out@.contains_key(genetics.kv()[j].0@));
                }
            }
            assert forall|g: Seq<char>| #[trigger] genetics@.contains_key(g) implies (
            if self.definitions.has_gene(g) {
                out@[g] == genetics@[g] || mutated_value(self.definitions.def_of(g), genetics@[g],
                    out@[g])
            } else {
                out@[g] == genetics@[g]
            }) by {
                crate::types::lemma_map_of_domain(genetics.kv(), g);
                let j = choose|j: int| 0 <= j < n && genetics.kv()[j].0@ == g;
                crate::types::lemma_map_of_index(genetics.kv(), j);
            }
            if rate == 0 {
                assert forall|g: Seq<char>| #[trigger] out@.contains_key(g) implies
                    genetics@.contains_key(g) && out@[g] == genetics@[g] by {
                    crate::types::lemma_map_of_domain(genetics.kv(), g);
                    let j = choose|j: int| 0 <= j < n && genetics.kv()[j].0@ == g;
                    crate::types::lemma_map_of_index(genetics.kv(), j);
                }
                assert(out@ =~= genetics@);
            }
            if rate >= 1000 {
                assert forall|g: Seq<char>| #[trigger] genetics@.contains_key(g)
                    && self.definitions.has_gene(g) implies mutated_value(
                    self.definitions.def_of(g), genetics@[g], out@[g]) by {
                    crate::types::lemma_map_of_domain(genetics.kv(), g);
                    let j = choose|j: int| 0 <= j < n && genetics.kv()[j].0@ == g;
                    crate::types::lemma_map_of_index(genetics.kv(), j);
                }
            }
        }
        out
    }

    /// Mutate under a rate selected from parent similarity: above 0.9
    /// the rate is 0.3, above 0.7 it is 0.2, above 0.5 it is 0.1, and
    /// otherwise 0.05 (all milli-units).
    pub fn adaptive_mutate(&self, genetics: &TraitSet, similarity: u64, rng: &mut Prng) -> (out:
        TraitSet)
        requires
            self.definitions.wf(),
            genetics.wf(),
            traits_valid(self.definitions, genetics@),
        ensures
            out.wf(),
            mutation_of(self.definitions, genetics@, out@, adaptive_rate(similarity)),
    {
        let rate: u64 = if similarity > 900 {
            300
        } else if similarity > 700 {
            200
        } else if similarity > 500 {
            100
        } else {
            50
        };
        self.mutate(genetics, rate, rng)
    }
}

/// Mutate one channel: uniform noise in [-30, 30], clamped to a byte.
fn mutate_channel(ch: u8, rng: &mut Prng) -> (r: u8)
    ensures
        channel_near(ch, r),
{
    let d: i64 = rng.below(61) as i64 - 30;
    let moved: i64 = ch as i64 + d;
    if moved < 0 {
        0
    } else if moved > 255 {
        255
    } else {
        moved as u8
    }
}

/// Mutate one gene value by its kind's rule.
fn mutate_gene(value: &GeneValue, def: &GeneDefinition, rng: &mut Prng) -> (out: GeneValue)
    requires
        def.wf(),
        crate::genes::value_ok(*def, *value),
    ensures
        mutated_value(*def, *value, out),
{
    match (def.kind, value) {
        (GeneKind::Rgb, GeneValue::Rgb(c)) => {
            GeneValue::Rgb(Rgb {
                r: mutate_channel(c.r, rng),
                g: mutate_channel(c.g, rng),
                b: mutate_channel(c.b, rng),
            })
        },
        (GeneKind::Discrete, GeneValue::Discrete(s)) => {
            match &def.discrete_options {
                Some(options) => GeneValue::Discrete(pick_alternative(options, s, rng)),
                None => vstd::pervasive::unreached(),
            }
        },
        (GeneKind::Continuous, GeneValue::Continuous(f)) => {
            match def.continuous_range {
                Some((lo, hi)) => {
                    let width: u64 = (hi - lo) as u64;
                    let sigma: u64 = width / 10;
                    let noise: i64 = gaussian_milli(rng, sigma);
                    let moved: i64 = *f + noise;
                    let clamped: i64 = if moved < lo {
                        lo
                    } else if moved > hi {
                        hi
                    } else {
                        moved
                    };
                    GeneValue::Continuous(clamped)
                },
                None => vstd::pervasive::unreached(),
            }
        },
        _ => vstd::pervasive::unreached(),
    }
}

/// A uniform pick among the options that differ from `current`, or
/// `current` itself when there is no alternative.
fn pick_alternative(options: &Vec<String>, current: &String, rng: &mut Prng) -> (r: String)
    ensures
        (exists|i: int| 0 <= i < options@.len() && options@[i]@ != current@) ==> (exists|i: int|
            0 <= i < options@.len() && options@[i]@ == r@) && r@ != current@,
        !(exists|i: int| 0 <= i < options@.len() && options@[i]@ != current@) ==> r@ == current@,
{
    let n: usize = options.len();
    let mut alts: Vec<usize> = Vec::new();
    let mut i: usize = 0;
    while i < n
        invariant
            n == options@.len(),
            i <= n,
            forall|k: int| 0 <= k < alts@.len() ==> (#[trigger] alts@[k]) < i && options@[
                alts@[k] as int]@ != current@,
            alts@.len() == 0 ==> forall|j: int| 0 <= j < i ==> options@[j]@ == current@,
        decreases n - i,
    {
        if options[i] != *current {
            alts.push(i);
        }
        i += 1;
    }
    if alts.len() == 0 {
        current.clone()
    } else {
        let k: u64 = rng.below(alts.len() as u64);
        let idx: usize = alts[k as usize];
        options[idx].clone()
    }
}

} // verus!
