//! Mendelian and blended inheritance, and the genetic similarity score.

use vstd::prelude::*;
use crate::genes::{value_ok, GeneDefinition, GeneDefinitions, GeneKind};
use crate::math::{lemma_sqrt_floor_monotone, lemma_sqrt_floor_unique, sqrt_floor};
use crate::rng::Prng;
use crate::types::{lemma_blend_self, spec_blend, spec_distance, GeneValue, TraitSet};

verus! {

/// Largest color distance, in milli-units: the distance between black
/// and white, floor(1000 * sqrt(3 * 255^2)).
pub const MAX_COLOR_DIST: u64 = 441672;

/// Every registered gene present in the trait map carries a value in
/// its domain.
pub open spec fn traits_valid(reg: GeneDefinitions, m: Map<Seq<char>, GeneValue>) -> bool {
    forall|i: int| 0 <= i < reg.size() && m.contains_key(#[trigger] reg.name_at(i)) ==> value_ok(
        reg.def_at(i), m[reg.name_at(i)])
}

/// The trait map assigns a value to exactly the registered genes.
pub open spec fn complete_traits(reg: GeneDefinitions, m: Map<Seq<char>, GeneValue>) -> bool {
    forall|g: Seq<char>| #[trigger] m.contains_key(g) <==> reg.has_gene(g)
}

/// The Mendelian rule for one gene: with both parents present the
/// child's value is one of theirs; with one present, that one; with
/// neither, the registry default.
pub open spec fn mendel_pick(
    g: Seq<char>,
    p1: Map<Seq<char>, GeneValue>,
    p2: Map<Seq<char>, GeneValue>,
    def: GeneDefinition,
    v: GeneValue,
) -> bool {
    if p1.contains_key(g) && p2.contains_key(g) {
        v == p1[g] || v == p2[g]
    } else if p1.contains_key(g) {
        v == p1[g]
    } else if p2.contains_key(g) {
        v == p2[g]
    } else {
        v == def.default
    }
}

/// The blended rule for one gene. With both parents present: colors
/// interpolate under some bias in [0.3, 0.7), continuous values take
/// the floored arithmetic mean, discrete genes fall back to the
/// Mendelian pick, and a value of the wrong shape for the gene's kind
/// yields the default. One-missing and both-missing cases are
/// Mendelian.
pub open spec fn blended_pick(
    g: Seq<char>,
    p1: Map<Seq<char>, GeneValue>,
    p2: Map<Seq<char>, GeneValue>,
    def: GeneDefinition,
    v: GeneValue,
) -> bool {
    if p1.contains_key(g) && p2.contains_key(g) {
        match def.kind {
            GeneKind::Rgb => match (p1[g], p2[g]) {
                (GeneValue::Rgb(c1), GeneValue::Rgb(c2)) => exists|b: u64|
                    300 <= b < 700 && v == GeneValue::Rgb(spec_blend(c1, c2, b)),
                _ => v == def.default,
            },
            GeneKind::Continuous => match (p1[g], p2[g]) {
                (GeneValue::Continuous(f1), GeneValue::Continuous(f2)) => v
                    == GeneValue::Continuous(((f1 + f2) / 2) as i64),
                _ => v == def.default,
            },
            GeneKind::Discrete => v == p1[g] || v == p2[g],
        }
    } else {
        mendel_pick(g, p1, p2, def, v)
    }
}

/// A whole child trait map obeying the Mendelian rule: its domain is
/// the registry and every gene obeys `mendel_pick`.
pub open spec fn mendel_child(
    reg: GeneDefinitions,
    p1: Map<Seq<char>, GeneValue>,
    p2: Map<Seq<char>, GeneValue>,
    c: Map<Seq<char>, GeneValue>,
) -> bool {
    &&& complete_traits(reg, c)
    &&& forall|i: int| 0 <= i < reg.size() ==> mendel_pick(#[trigger] reg.name_at(i), p1, p2,
        reg.def_at(i), c[reg.name_at(i)])
}

/// A whole child trait map obeying the blended rule.
pub open spec fn blended_child(
    reg: GeneDefinitions,
    p1: Map<Seq<char>, GeneValue>,
    p2: Map<Seq<char>, GeneValue>,
    c: Map<Seq<char>, GeneValue>,
) -> bool {
    &&& complete_traits(reg, c)
    &&& forall|i: int| 0 <= i < reg.size() ==> blended_pick(#[trigger] reg.name_at(i), p1, p2,
        reg.def_at(i), c[reg.name_at(i)])
}

/// |f1 - f2|.
pub open spec fn abs_diff(f1: i64, f2: i64) -> int {
    if f1 >= f2 {
        f1 - f2
    } else {
        f2 - f1
    }
}

/// One gene's contribution to the similarity numerator, in
/// milli-units. Comparable same-kind pairs score by closeness; a
/// missing value or mismatched kind scores 0 (but the gene still
/// counts in the denominator).
pub open spec fn gene_score(
    def: GeneDefinition,
    o1: Option<GeneValue>,
    o2: Option<GeneValue>,
) -> int {
    match (o1, o2) {
        (Some(v1), Some(v2)) => match (def.kind, v1, v2) {
            (GeneKind::Rgb, GeneValue::Rgb(c1), GeneValue::Rgb(c2)) => 1000 - (1000 * (
            spec_distance(c1, c2) as int)) / (MAX_COLOR_DIST as int),
            (GeneKind::Continuous, GeneValue::Continuous(f1), GeneValue::Continuous(f2)) => match
                def.continuous_range {
                Some(rg) => if rg.1 - rg.0 == 0 {
                    1000
                } else {
                    1000 - (1000 * abs_diff(f1, f2)) / (rg.1 - rg.0)
                },
                None => 0,
            },
            (GeneKind::Discrete, GeneValue::Discrete(s1), GeneValue::Discrete(s2)) => if s1@
                == s2@ {
                1000
            } else {
                0
            },
            _ => 0,
        },
        _ => 0,
    }
}

/// The value a trait map assigns to a gene, if any.
pub open spec fn opt_of(m: Map<Seq<char>, GeneValue>, g: Seq<char>) -> Option<GeneValue> {
    if m.contains_key(g) {
        Some(m[g])
    } else {
        None
    }
}

/// Sum of the first `i` genes' similarity contributions.
pub open spec fn score_sum(
    reg: GeneDefinitions,
    m1: Map<Seq<char>, GeneValue>,
    m2: Map<Seq<char>, GeneValue>,
    i: int,
) -> int
    decreases i,
{
    if i <= 0 {
        0
    } else {
        score_sum(reg, m1, m2, i - 1) + gene_score(reg.def_at(i - 1), opt_of(m1, reg.name_at(
            i - 1)), opt_of(m2, reg.name_at(i - 1)))
    }
}

/// The similarity score: the mean of the per-gene contributions over
/// every registered gene, in milli-units; 0 for an empty registry.
pub open spec fn spec_similarity(
    reg: GeneDefinitions,
    m1: Map<Seq<char>, GeneValue>,
    m2: Map<Seq<char>, GeneValue>,
) -> int {
    if reg.size() == 0 {
        0
    } else {
        score_sum(reg, m1, m2, reg.size()) / reg.size()
    }
}

/// Combines two parent trait sets into a child under a Mendelian or a
/// blended policy, and scores resemblance.
#[derive(Debug)]
pub struct Inheritance {
    pub definitions: GeneDefinitions,
}

impl Inheritance {
    pub fn new(definitions: GeneDefinitions) -> (r: Inheritance)
        ensures
            r.definitions == definitions,
    {
        Inheritance { definitions }
    }

    /// Mendelian inheritance: per registered gene, a uniform 50/50 pick
    /// when both parents supply a value, the present one when only one
    /// does, the registry default when neither does. Unregistered gene
    /// names are never emitted.
    pub fn inherit(&self, parent1: &TraitSet, parent2: &TraitSet, rng: &mut Prng) -> (child:
        TraitSet)
        requires
            self.definitions.wf(),
            parent1.wf(),
            parent2.wf(),
        ensures
            child.wf(),
            mendel_child(self.definitions, parent1@, parent2@, child@),
    {
        let n: usize = self.definitions.entries.len();
        let mut child: TraitSet = TraitSet::new();
        let mut i: usize = 0;
        while i < n
            invariant
                n == self.definitions.size(),
                i <= n,
                self.definitions.wf(),
                parent1.wf(),
                parent2.wf(),
                child.wf(),
                forall|g: Seq<char>| #[trigger] child@.contains_key(g) ==> exists|j: int|
                    0 <= j < i && self.definitions.name_at(j) == g,
                forall|j: int| 0 <= j < i ==> child@.contains_key(
                    #[trigger] self.definitions.name_at(j)),
                forall|j: int| 0 <= j < i ==> mendel_pick(#[trigger] self.definitions.name_at(j),
                    parent1@, parent2@, self.definitions.def_at(j),
                    child@[self.definitions.name_at(j)]),
            decreases n - i,
        {
            let name: &String = &self.definitions.entries[i].0;
            let v1: Option<&GeneValue> = parent1.get(name.as_str());
            let v2: Option<&GeneValue> = parent2.get(name.as_str());
            let value: GeneValue = match (v1, v2) {
                (Some(a), Some(b)) => {
                    if rng.below(2) == 0 {
                        a.duplicate()
                    } else {
                        b.duplicate()
                    }
                },
                (Some(a), None) => a.duplicate(),
                (None, Some(b)) => b.duplicate(),
                (None, None) => self.definitions.entries[i].1.default.duplicate(),
            };
            let ghost pre_map = child@;
            child.set(name.clone(), value);
            proof {
                assert forall|g: Seq<char>| #[trigger] child@.contains_key(g) implies exists|
                    j: int,
                | 0 <= j < i + 1 && self.definitions.name_at(j) == g by {
                    if g == self.definitions.name_at(i as int) {
                        assert(0 <= i < i + 1 && self.definitions.name_at(i as int) == g);
                    } else {
                        assert(pre_map.contains_key(g));
                    }
                }
                assert forall|j: int| 0 <= j < i + 1 implies mendel_pick(
                    #[trigger] self.definitions.name_at(j), parent1@, parent2@,
                    self.definitions.def_at(j), child@[self.definitions.name_at(j)]) by {
                    if j < i {
                        assert(self.definitions.name_at(j) != self.definitions.name_at(i as int));
                    }
                }
            }
            i += 1;
        }
        child
    }

    /// Blended inheritance: colors interpolate under a uniform bias in
    /// [0.3, 0.7), continuous values take the arithmetic mean, discrete
    /// genes fall back to the Mendelian 50/50 pick; one-missing and
    /// both-missing cases match `inherit`.
    pub fn inherit_blended(&self, parent1: &TraitSet, parent2: &TraitSet, rng: &mut Prng) -> (child:
        TraitSet)
        requires
            self.definitions.wf(),
            parent1.wf(),
            parent2.wf(),
            traits_valid(self.definitions, parent1@),
            traits_valid(self.definitions, parent2@),
        ensures
            child.wf(),
            blended_child(self.definitions, parent1@, parent2@, child@),
    {
        let n: usize = self.definitions.entries.len();
        let mut child: TraitSet = TraitSet::new();
        let mut i: usize = 0;
        while i < n
            invariant
                n == self.definitions.size(),
                i <= n,
                self.definitions.wf(),
                parent1.wf(),
                parent2.wf(),
                traits_valid(self.definitions, parent1@),
                traits_valid(self.definitions, parent2@),
                child.wf(),
                forall|g: Seq<char>| #[trigger] child@.contains_key(g) ==> exists|j: int|
                    0 <= j < i && self.definitions.name_at(j) == g,
                forall|j: int| 0 <= j < i ==> child@.contains_key(
                    #[trigger] self.definitions.name_at(j)),
                forall|j: int| 0 <= j < i ==> blended_pick(#[trigger] self.definitions.name_at(j),
                    parent1@, parent2@, self.definitions.def_at(j),
                    child@[self.definitions.name_at(j)]),
            decreases n - i,
        {
            let name: &String = &self.definitions.entries[i].0;
            let def: &GeneDefinition = &self.definitions.entries[i].1;
            let v1: Option<&GeneValue> = parent1.get(name.as_str());
            let v2: Option<&GeneValue> = parent2.get(name.as_str());
            proof {
                assert(self.definitions.def_at(i as int).wf());
                assert(self.definitions.name_at(i as int) == name@);
                if parent1@.contains_key(self.definitions.name_at(i as int)) {
                    assert(value_ok(self.definitions.def_at(i as int),
                        parent1@[self.definitions.name_at(i as int)]));
                }
                if parent2@.contains_key(self.definitions.name_at(i as int)) {
                    assert(value_ok(self.definitions.def_at(i as int),
                        parent2@[self.definitions.name_at(i as int)]));
                }
            }
            let value: GeneValue = match (v1, v2) {
                (Some(a), Some(b)) => blend_values(def, a, b, rng),
                (Some(a), None) => a.duplicate(),
                (None, Some(b)) => b.duplicate(),
                (None, None) => def.default.duplicate(),
            };
            let ghost pre_map = child@;
            child.set(name.clone(), value);
            proof {
                assert forall|g: Seq<char>| #[trigger] child@.contains_key(g) implies exists|
                    j: int,
                | 0 <= j < i + 1 && self.definitions.name_at(j) == g by {
                    if g == self.definitions.name_at(i as int) {
                        assert(0 <= i < i + 1 && self.definitions.name_at(i as int) == g);
                    } else {
                        assert(pre_map.contains_key(g));
                    }
                }
                assert forall|j: int| 0 <= j < i + 1 implies blended_pick(
                    #[trigger] self.definitions.name_at(j), parent1@, parent2@,
                    self.definitions.def_at(j), child@[self.definitions.name_at(j)]) by {
                    if j < i {
                        assert(self.definitions.name_at(j) != self.definitions.name_at(i as int));
                    }
                }
            }
            i += 1;
        }
        child
    }

    /// The normalized resemblance of two trait sets, in milli-units
    /// (1000 = identical on every registered gene).
    pub fn calculate_similarity(&self, genetics1: &TraitSet, genetics2: &TraitSet) -> (score: u64)
        requires
            self.definitions.wf(),
            genetics1.wf(),
            genetics2.wf(),
            traits_valid(self.definitions, genetics1@),
            traits_valid(self.definitions, genetics2@),
        ensures
            score == spec_similarity(self.definitions, genetics1@, genetics2@),
            score <= 1000,
    {
        let n: usize = self.definitions.entries.len();
        if n == 0 {
            return 0;
        }
        let mut sum: u64 = 0;
        let mut i: usize = 0;
        while i < n
            invariant
                n == self.definitions.size(),
                i <= n,
                self.definitions.wf(),
                genetics1.wf(),
                genetics2.wf(),
                traits_valid(self.definitions, genetics1@),
                traits_valid(self.definitions, genetics2@),
                sum == score_sum(self.definitions, genetics1@, genetics2@, i as int),
                sum <= 1000 * i,
            decreases n - i,
        {
            let name: &String = &self.definitions.entries[i].0;
            let def: &GeneDefinition = &self.definitions.entries[i].1;
            let v1: Option<&GeneValue> = genetics1.get(name.as_str());
            let v2: Option<&GeneValue> = genetics2.get(name.as_str());
            proof {
                assert(self.definitions.def_at(i as int).wf());
                assert(self.definitions.name_at(i as int) == name@);
                if genetics1@.contains_key(self.definitions.name_at(i as int)) {
                    assert(value_ok(self.definitions.def_at(i as int),
                        genetics1@[self.definitions.name_at(i as int)]));
                }
                if genetics2@.contains_key(self.definitions.name_at(i as int)) {
                    assert(value_ok(self.definitions.def_at(i as int),
                        genetics2@[self.definitions.name_at(i as int)]));
                }
            }
            let s: u64 = gene_score_exec(def, v1, v2, Ghost(genetics1@), Ghost(genetics2@),
                Ghost(name@));
            sum = sum + s;
            i += 1;
        }
        proof {
            vstd::arithmetic::div_mod::lemma_div_is_ordered(sum as int, 1000 * n as int,
                n as int);
            vstd::arithmetic::div_mod::lemma_div_by_multiple(1000, n as int);
        }
        sum / (n as u64)
    }
}

/// One gene's executable similarity contribution; mirrors
/// `gene_score`.
fn gene_score_exec(
    def: &GeneDefinition,
    v1: Option<&GeneValue>,
    v2: Option<&GeneValue>,
    m1: Ghost<Map<Seq<char>, GeneValue>>,
    m2: Ghost<Map<Seq<char>, GeneValue>>,
    g: Ghost<Seq<char>>,
) -> (s: u64)
    requires
        def.wf(),
        v1 matches Some(v) ==> m1@.contains_key(g@) && *v == m1@[g@] && value_ok(*def, *v),
        v1 is None ==> !m1@.contains_key(g@),
        v2 matches Some(v) ==> m2@.contains_key(g@) && *v == m2@[g@] && value_ok(*def, *v),
        v2 is None ==> !m2@.contains_key(g@),
    ensures
        s == gene_score(*def, opt_of(m1@, g@), opt_of(m2@, g@)),
        s <= 1000,
{
    let (a, b) = match (v1, v2) {
        (Some(a), Some(b)) => (a, b),
        _ => {
            return 0;
        },
    };
    match (def.kind, a, b) {
        (GeneKind::Rgb, GeneValue::Rgb(c1), GeneValue::Rgb(c2)) => {
            let dist: u64 = c1.distance(c2);
            proof {
                crate::types::lemma_dist_sq_bound(*c1, *c2);
                lemma_sqrt_floor_monotone((crate::types::dist_sq(*c1, *c2) * 1000000) as nat,
                    195075000000);
                assert(441672 * 441672 <= 195075000000 < 441673 * 441673) by (nonlinear_arith);
                lemma_sqrt_floor_unique(195075000000, 441672);
                vstd::arithmetic::div_mod::lemma_div_is_ordered(1000 * dist as int, 441672000,
                    441672);
            }
            1000 - (1000 * dist) / MAX_COLOR_DIST
        },
        (GeneKind::Continuous, GeneValue::Continuous(f1), GeneValue::Continuous(f2)) => {
            match def.continuous_range {
                Some((lo, hi)) => {
                    let range: i64 = hi - lo;
                    if range == 0 {
                        1000
                    } else {
                        let diff: i64 = if f1 >= f2 {
                            f1 - f2
                        } else {
                            f2 - f1
                        };
                        proof {
                            vstd::arithmetic::div_mod::lemma_div_is_ordered(1000 * diff as int,
                                1000 * range as int, range as int);
                            vstd::arithmetic::div_mod::lemma_div_by_multiple(1000, range as int);
                        }
                        (1000 - (1000 * diff) / range) as u64
                    }
                },
                None => 0,
            }
        },
        (GeneKind::Discrete, GeneValue::Discrete(s1), GeneValue::Discrete(s2)) => {
            if *s1 == *s2 {
                1000
            } else {
                0
            }
        },
        _ => 0,
    }
}

/// Mendelian inheritance of a complete trait set with itself
/// reproduces it exactly: every gene's 50/50 pick chooses between two
/// equal values.
pub proof fn lemma_inherit_self(
    reg: GeneDefinitions,
    t: Map<Seq<char>, GeneValue>,
    c: Map<Seq<char>, GeneValue>,
)
    requires
        reg.wf(),
        complete_traits(reg, t),
        mendel_child(reg, t, t, c),
    ensures
        c == t,
{
    assert forall|g: Seq<char>| #[trigger] c.contains_key(g) implies t.contains_key(g) && c[g]
        == t[g] by {
        let i = choose|i: int| 0 <= i < reg.size() && reg.name_at(i) == g;
        assert(mendel_pick(reg.name_at(i), t, t, reg.def_at(i), c[reg.name_at(i)]));
    }
    assert(c =~= t);
}

/// Blended inheritance of a complete valid trait set with itself
/// reproduces it exactly: blending a color with itself gives the same
/// color under any bias, the mean of a value with itself is itself,
/// and the discrete pick chooses between equal values.
pub proof fn lemma_inherit_blended_self(
    reg: GeneDefinitions,
    t: Map<Seq<char>, GeneValue>,
    c: Map<Seq<char>, GeneValue>,
)
    requires
        reg.wf(),
        complete_traits(reg, t),
        traits_valid(reg, t),
        blended_child(reg, t, t, c),
    ensures
        c == t,
{
    assert forall|g: Seq<char>| #[trigger] c.contains_key(g) implies t.contains_key(g) && c[g]
        == t[g] by {
        let i = choose|i: int| 0 <= i < reg.size() && reg.name_at(i) == g;
        let def = reg.def_at(i);
        assert(def.wf());
        assert(value_ok(def, t[g]));
        assert(blended_pick(reg.name_at(i), t, t, def, c[reg.name_at(i)]));
        match def.kind {
            GeneKind::Rgb => {
                let cc = t[g]->Rgb_0;
                let b = choose|b: u64| 300 <= b < 700 && c[g] == GeneValue::Rgb(
                    spec_blend(cc, cc, b));
                lemma_blend_self(cc, b);
            },
            GeneKind::Continuous => {
                let f = t[g]->Continuous_0;
                assert((f + f) / 2 == f as int) by (nonlinear_arith);
            },
            GeneKind::Discrete => {},
        }
    }
    assert(c =~= t);
}

/// A gene scores the full 1000 against itself when its value lies in
/// its domain.
pub proof fn lemma_gene_score_self(def: GeneDefinition, v: GeneValue)
    requires
        def.wf(),
        value_ok(def, v),
    ensures
        gene_score(def, Some(v), Some(v)) == 1000,
{
    match v {
        GeneValue::Rgb(c) => {
            assert(crate::types::channel_diff_sq(c.r, c.r) == 0 && crate::types::channel_diff_sq(
                c.g, c.g) == 0 && crate::types::channel_diff_sq(c.b, c.b) == 0)
                by (nonlinear_arith);
            assert(spec_distance(c, c) == sqrt_floor(0));
            assert(sqrt_floor(0) == 0);
        },
        GeneValue::Continuous(f) => {},
        GeneValue::Discrete(s) => {},
    }
}

/// The per-gene score does not depend on the order of its arguments.
pub proof fn lemma_gene_score_sym(
    def: GeneDefinition,
    o1: Option<GeneValue>,
    o2: Option<GeneValue>,
)
    ensures
        gene_score(def, o1, o2) == gene_score(def, o2, o1),
{
    match (o1, o2) {
        (Some(v1), Some(v2)) => match (def.kind, v1, v2) {
            (GeneKind::Rgb, GeneValue::Rgb(c1), GeneValue::Rgb(c2)) => {
                assert(crate::types::dist_sq(c1, c2) == crate::types::dist_sq(c2, c1))
                    by (nonlinear_arith);
            },
            _ => {},
        },
        _ => {},
    }
}

/// Partial similarity sums are symmetric in their two trait maps.
pub proof fn lemma_score_sum_sym(
    reg: GeneDefinitions,
    m1: Map<Seq<char>, GeneValue>,
    m2: Map<Seq<char>, GeneValue>,
    i: int,
)
    ensures
        score_sum(reg, m1, m2, i) == score_sum(reg, m2, m1, i),
    decreases i,
{
    if i > 0 {
        lemma_score_sum_sym(reg, m1, m2, i - 1);
        lemma_gene_score_sym(reg.def_at(i - 1), opt_of(m1, reg.name_at(i - 1)), opt_of(m2,
            reg.name_at(i - 1)));
    }
}

/// Similarity is symmetric: swapping the two trait sets cannot change
/// the score.
pub proof fn lemma_similarity_symmetric(
    reg: GeneDefinitions,
    m1: Map<Seq<char>, GeneValue>,
    m2: Map<Seq<char>, GeneValue>,
)
    ensures
        spec_similarity(reg, m1, m2) == spec_similarity(reg, m2, m1),
{
    lemma_score_sum_sym(reg, m1, m2, reg.size());
}

/// A complete valid trait set over a nonempty registry is perfectly
/// similar to itself: every gene contributes the full score.
pub proof fn lemma_similarity_self(reg: GeneDefinitions, m: Map<Seq<char>, GeneValue>)
    requires
        reg.wf(),
        reg.size() > 0,
        complete_traits(reg, m),
        traits_valid(reg, m),
    ensures
        spec_similarity(reg, m, m) == 1000,
{
    lemma_score_sum_full(reg, m, reg.size());
    vstd::arithmetic::div_mod::lemma_div_by_multiple(1000, reg.size());
}

/// Each prefix of the self-similarity sum is full.
proof fn lemma_score_sum_full(reg: GeneDefinitions, m: Map<Seq<char>, GeneValue>, i: int)
    requires
        reg.wf(),
        complete_traits(reg, m),
        traits_valid(reg, m),
        i <= reg.size(),
    ensures
        score_sum(reg, m, m, i) == if i <= 0 {
            0
        } else {
            1000 * i
        },
    decreases i,
{
    if i > 0 {
        lemma_score_sum_full(reg, m, i - 1);
        let g = reg.name_at(i - 1);
        assert(reg.has_gene(g));
        assert(m.contains_key(g));
        lemma_gene_score_self(reg.def_at(i - 1), m[g]);
    }
}

/// Blend one gene's two parent values per the blended rule; both
/// values must lie in the gene's domain.
fn blend_values(def: &GeneDefinition, a: &GeneValue, b: &GeneValue, rng: &mut Prng) -> (v:
    GeneValue)
    requires
        def.wf(),
        value_ok(*def, *a),
        value_ok(*def, *b),
    ensures
        match def.kind {
            GeneKind::Rgb => *a matches GeneValue::Rgb(c1) && *b matches GeneValue::Rgb(c2)
                && exists|bias: u64| 300 <= bias < 700 && v == GeneValue::Rgb(
                spec_blend(c1, c2, bias)),
            GeneKind::Continuous => *a matches GeneValue::Continuous(f1)
                && *b matches GeneValue::Continuous(f2) && v == GeneValue::Continuous(
                ((f1 + f2) / 2) as i64),
            GeneKind::Discrete => v == *a || v == *b,
        },
{
    match (def.kind, a, b) {
        (GeneKind::Rgb, GeneValue::Rgb(c1), GeneValue::Rgb(c2)) => {
            let bias: u64 = 300 + rng.below(400);
            let blended = c1.blend(c2, bias);
            let out = GeneValue::Rgb(blended);
            proof {
                assert(300 <= bias < 700 && out == GeneValue::Rgb(spec_blend(*c1, *c2, bias)));
                assert(exists|bb: u64| 300 <= bb < 700 && out == GeneValue::Rgb(
                    spec_blend(*c1, *c2, bb)));
            }
            out
        },
        (GeneKind::Continuous, GeneValue::Continuous(f1), GeneValue::Continuous(f2)) => {
            let s: i64 = *f1 + *f2;
            let m: i64 = if s >= 0 {
                s / 2
            } else {
                (s - 1) / 2
            };
            proof {
                assert(m == (s as int) / 2);
            }
            GeneValue::Continuous(m)
        },
        (GeneKind::Discrete, _, _) => {
            if rng.below(2) == 0 {
                a.duplicate()
            } else {
                b.duplicate()
            }
        },
        // Values in the gene's domain always match its kind, so no
        // other shapes can reach this point.
        _ => vstd::pervasive::unreached(),
    }
}

} // verus!
