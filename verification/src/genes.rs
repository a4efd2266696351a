//! The gene registry: an immutable catalog mapping gene name to kind,
//! default value, and domain.

use vstd::prelude::*;
use crate::rng::Prng;
use crate::types::{GeneError, GeneValue, Rgb, TraitSet, CONT_BOUND};

verus! {

/// The three kinds of gene value.
#[derive(Clone, Copy, Debug, PartialEq, Eq, Structural)]
pub enum GeneKind {
    Rgb,
    Discrete,
    Continuous,
}

/// Definition of a single gene: its kind, default, and domain.
#[derive(Debug)]
pub struct GeneDefinition {
    pub kind: GeneKind,
    pub default: GeneValue,
    pub description: String,
    pub discrete_options: Option<Vec<String>>,
    pub continuous_range: Option<(i64, i64)>,
}

/// `s` is one of the definition's discrete options.
pub open spec fn has_option(def: GeneDefinition, s: Seq<char>) -> bool {
    def.discrete_options matches Some(o) && exists|i: int| 0 <= i < o@.len() && o@[i]@ == s
}

/// A value lies in the definition's domain: matching kind, and for
/// discrete genes a listed option, for continuous genes a quantity
/// within the inclusive range.
pub open spec fn value_ok(def: GeneDefinition, v: GeneValue) -> bool {
    match def.kind {
        GeneKind::Rgb => v is Rgb,
        GeneKind::Discrete => v matches GeneValue::Discrete(s) && has_option(def, s@),
        GeneKind::Continuous => v matches GeneValue::Continuous(f)
            && (def.continuous_range matches Some(r) && r.0 <= f <= r.1),
    }
}

impl GeneDefinition {
    /// Kind, default and domain fields are mutually consistent, the
    /// default lies in the domain, and continuous bounds are small
    /// enough for the arithmetic.
    pub open spec fn wf(self) -> bool {
        &&& value_ok(self, self.default)
        &&& match self.kind {
            GeneKind::Rgb => self.discrete_options is None && self.continuous_range is None,
            GeneKind::Discrete => self.continuous_range is None && (
            self.discrete_options matches Some(o) && o@.len() >= 1),
            GeneKind::Continuous => self.discrete_options is None && (
            self.continuous_range matches Some(r) && -CONT_BOUND <= r.0 <= r.1 <= CONT_BOUND),
        }
    }

    /// A color gene with the given default.
    pub fn rgb(default: Rgb, description: &str) -> (d: GeneDefinition)
        ensures
            d.wf(),
            d.kind == GeneKind::Rgb,
            d.default == GeneValue::Rgb(default),
            d.description@ == description@,
    {
        GeneDefinition {
            kind: GeneKind::Rgb,
            default: GeneValue::Rgb(default),
            description: description.to_owned(),
            discrete_options: None,
            continuous_range: None,
        }
    }

    /// A discrete gene over the given options, whose default must be
    /// one of them.
    pub fn discrete(options: Vec<&str>, default: &str, description: &str) -> (d: GeneDefinition)
        requires
            options@.len() >= 1,
            exists|i: int| 0 <= i < options@.len() && options@[i]@ == default@,
        ensures
            d.wf(),
            d.kind == GeneKind::Discrete,
            d.default matches GeneValue::Discrete(s) && s@ == default@,
            d.discrete_options matches Some(o) && o@.len() == options@.len() && forall|i: int|
                0 <= i < o@.len() ==> #[trigger] o@[i]@ == options@[i]@,
    {
        let mut owned: Vec<String> = Vec::new();
        let n: usize = options.len();
        let mut i: usize = 0;
        while i < n
            invariant
                n == options@.len(),
                i <= n,
                owned@.len() == i,
                forall|j: int| 0 <= j < i ==> #[trigger] owned@[j]@ == options@[j]@,
            decreases n - i,
        {
            owned.push(options[i].to_owned());
            i += 1;
        }
        let d = GeneDefinition {
            kind: GeneKind::Discrete,
            default: GeneValue::Discrete(default.to_owned()),
            description: description.to_owned(),
            discrete_options: Some(owned),
            continuous_range: None,
        };
        proof {
            let k = choose|k: int| 0 <= k < options@.len() && options@[k]@ == default@;
            assert(d.discrete_options matches Some(o) && o@[k]@ == default@);
            assert(has_option(d, default@));
        }
        d
    }

    /// A continuous gene over an inclusive milli-unit range containing
    /// its default.
    pub fn continuous(range: (i64, i64), default: i64, description: &str) -> (d: GeneDefinition)
        requires
            -CONT_BOUND <= range.0 <= default <= range.1 <= CONT_BOUND,
        ensures
            d.wf(),
            d.kind == GeneKind::Continuous,
            d.default == GeneValue::Continuous(default),
            d.continuous_range == Some(range),
    {
        GeneDefinition {
            kind: GeneKind::Continuous,
            default: GeneValue::Continuous(default),
            description: description.to_owned(),
            discrete_options: None,
            continuous_range: Some(range),
        }
    }
}

/// The definition is a color gene with this default.
pub open spec fn is_rgb_gene(def: GeneDefinition, c: Rgb) -> bool {
    def.kind == GeneKind::Rgb && def.default == GeneValue::Rgb(c)
}

/// The definition is a discrete gene with these options and default.
pub open spec fn is_discrete_gene(def: GeneDefinition, opts: Seq<Seq<char>>, dflt: Seq<char>)
    -> bool {
    &&& def.kind == GeneKind::Discrete
    &&& def.default matches GeneValue::Discrete(s) && s@ == dflt
    &&& def.discrete_options matches Some(o) && o@.len() == opts.len() && forall|i: int|
        0 <= i < opts.len() ==> #[trigger] o@[i]@ == opts[i]
}

/// The definition is a continuous gene with this range and default.
pub open spec fn is_continuous_gene(def: GeneDefinition, lo: i64, hi: i64, dflt: i64) -> bool {
    def.kind == GeneKind::Continuous && def.default == GeneValue::Continuous(dflt)
        && def.continuous_range == Some((lo, hi))
}

/// `f` clamped into the inclusive range [lo, hi].
pub open spec fn clamp_i64(f: i64, lo: i64, hi: i64) -> i64 {
    if f < lo {
        lo
    } else if f > hi {
        hi
    } else {
        f
    }
}

/// An accepted ingestion outcome: the value as stored, which for
/// continuous genes is the input clamped into its range and otherwise
/// the input itself.
pub open spec fn validated(def: GeneDefinition, input: GeneValue, v: GeneValue) -> bool {
    match def.kind {
        GeneKind::Rgb => input is Rgb && v == input,
        GeneKind::Discrete => input matches GeneValue::Discrete(s) && has_option(def, s@)
            && v == input,
        GeneKind::Continuous => input matches GeneValue::Continuous(f) && (
        def.continuous_range matches Some(rg) && v == GeneValue::Continuous(
            clamp_i64(f, rg.0, rg.1))),
    }
}

/// A rejected ingestion outcome: the wrong kind of value, or a
/// discrete value outside the option set.
pub open spec fn rejected(def: GeneDefinition, input: GeneValue, e: GeneError) -> bool {
    match def.kind {
        GeneKind::Rgb => !(input is Rgb) && e == GeneError::KindMismatch,
        GeneKind::Discrete => match input {
            GeneValue::Discrete(s) => !has_option(def, s@) && e == GeneError::DomainViolation,
            _ => e == GeneError::KindMismatch,
        },
        GeneKind::Continuous => !(input is Continuous) && e == GeneError::KindMismatch,
    }
}

/// An accepted value lies in the definition's domain.
pub proof fn lemma_validated_ok(def: GeneDefinition, input: GeneValue, v: GeneValue)
    requires
        def.wf(),
        validated(def, input, v),
    ensures
        value_ok(def, v),
{
}

/// Central registry of all gene definitions, keyed by name in
/// registration order.
#[derive(Debug)]
pub struct GeneDefinitions {
    pub entries: Vec<(String, GeneDefinition)>,
}

impl GeneDefinitions {
    /// The game's catalog of nineteen shell, body, head, leg and eye
    /// genes.
    #[verifier::rlimit(100)]
    pub fn new() -> (r: GeneDefinitions)
        ensures
            r.wf(),
            r.size() == 19,
            r.name_at(0) == "shell_base_color"@ && is_rgb_gene(r.def_at(0),
                Rgb { r: 34, g: 139, b: 34 }),
            r.name_at(1) == "shell_pattern_type"@ && is_discrete_gene(r.def_at(1),
                seq!["hex"@, "spots"@, "stripes"@, "rings"@], "hex"@),
            r.name_at(2) == "shell_pattern_color"@ && is_rgb_gene(r.def_at(2),
                Rgb { r: 255, g: 255, b: 255 }),
            r.name_at(3) == "pattern_color"@ && is_rgb_gene(r.def_at(3),
                Rgb { r: 255, g: 255, b: 255 }),
            r.name_at(4) == "shell_pattern_density"@ && is_continuous_gene(r.def_at(4), 100, 1000,
                500),
            r.name_at(5) == "shell_pattern_opacity"@ && is_continuous_gene(r.def_at(5), 300, 1000,
                800),
            r.name_at(6) == "shell_size_modifier"@ && is_continuous_gene(r.def_at(6), 500, 1500,
                1000),
            r.name_at(7) == "body_base_color"@ && is_rgb_gene(r.def_at(7),
                Rgb { r: 107, g: 142, b: 35 }),
            r.name_at(8) == "body_pattern_type"@ && is_discrete_gene(r.def_at(8),
                seq!["solid"@, "mottled"@, "speckled"@, "marbled"@], "solid"@),
            r.name_at(9) == "body_pattern_color"@ && is_rgb_gene(r.def_at(9),
                Rgb { r: 85, g: 107, b: 47 }),
            r.name_at(10) == "body_pattern_density"@ && is_continuous_gene(r.def_at(10), 100, 1000,
                300),
            r.name_at(11) == "head_size_modifier"@ && is_continuous_gene(r.def_at(11), 700, 1300,
                1000),
            r.name_at(12) == "head_color"@ && is_rgb_gene(r.def_at(12),
                Rgb { r: 139, g: 90, b: 43 }),
            r.name_at(13) == "leg_length"@ && is_continuous_gene(r.def_at(13), 500, 1500, 1000),
            r.name_at(14) == "limb_shape"@ && is_discrete_gene(r.def_at(14),
                seq!["flippers"@, "feet"@, "fins"@], "flippers"@),
            r.name_at(15) == "leg_thickness_modifier"@ && is_continuous_gene(r.def_at(15), 700,
                1300, 1000),
            r.name_at(16) == "leg_color"@ && is_rgb_gene(r.def_at(16),
                Rgb { r: 101, g: 67, b: 33 }),
            r.name_at(17) == "eye_color"@ && is_rgb_gene(r.def_at(17), Rgb { r: 0, g: 0, b: 0 }),
            r.name_at(18) == "eye_size_modifier"@ && is_continuous_gene(r.def_at(18), 800, 1200,
                1000),
    {
        let mut e: Vec<(String, GeneDefinition)> = Vec::new();
        e.push(("shell_base_color".to_owned(), GeneDefinition::rgb(Rgb::new(34, 139, 34),
            "Primary shell color")));
        let shell_patterns: Vec<&str> = vec!["hex", "spots", "stripes", "rings"];
        proof {
            assert(shell_patterns@[0]@ == "hex"@);
        }
        e.push(("shell_pattern_type".to_owned(), GeneDefinition::discrete(shell_patterns, "hex",
            "Shell pattern type")));
        e.push(("shell_pattern_color".to_owned(), GeneDefinition::rgb(Rgb::new(255, 255, 255),
            "Shell pattern color")));
        e.push(("pattern_color".to_owned(), GeneDefinition::rgb(Rgb::new(255, 255, 255),
            "Pattern color (renderer alias)")));
        e.push(("shell_pattern_density".to_owned(), GeneDefinition::continuous((100, 1000), 500,
            "Pattern density/intensity")));
        e.push(("shell_pattern_opacity".to_owned(), GeneDefinition::continuous((300, 1000), 800,
            "Pattern transparency")));
        e.push(("shell_size_modifier".to_owned(), GeneDefinition::continuous((500, 1500), 1000,
            "Shell size scaling")));
        e.push(("body_base_color".to_owned(), GeneDefinition::rgb(Rgb::new(107, 142, 35),
            "Primary body color")));
        let body_patterns: Vec<&str> = vec!["solid", "mottled", "speckled", "marbled"];
        proof {
            assert(body_patterns@[0]@ == "solid"@);
        }
        e.push(("body_pattern_type".to_owned(), GeneDefinition::discrete(body_patterns, "solid",
            "Body pattern type")));
        e.push(("body_pattern_color".to_owned(), GeneDefinition::rgb(Rgb::new(85, 107, 47),
            "Body pattern color")));
        e.push(("body_pattern_density".to_owned(), GeneDefinition::continuous((100, 1000), 300,
            "Body pattern density")));
        e.push(("head_size_modifier".to_owned(), GeneDefinition::continuous((700, 1300), 1000,
            "Head size scaling")));
        e.push(("head_color".to_owned(), GeneDefinition::rgb(Rgb::new(139, 90, 43),
            "Head color")));
        e.push(("leg_length".to_owned(), GeneDefinition::continuous((500, 1500), 1000,
            "Leg length scaling")));
        let limb_shapes: Vec<&str> = vec!["flippers", "feet", "fins"];
        proof {
            assert(limb_shapes@[0]@ == "flippers"@);
        }
        e.push(("limb_shape".to_owned(), GeneDefinition::discrete(limb_shapes, "flippers",
            "Limb shape type")));
        e.push(("leg_thickness_modifier".to_owned(), GeneDefinition::continuous((700, 1300), 1000,
            "Leg thickness")));
        e.push(("leg_color".to_owned(), GeneDefinition::rgb(Rgb::new(101, 67, 33), "Leg color")));
        e.push(("eye_color".to_owned(), GeneDefinition::rgb(Rgb::new(0, 0, 0), "Eye color")));
        e.push(("eye_size_modifier".to_owned(), GeneDefinition::continuous((800, 1200), 1000,
            "Eye size scaling")));
        let r = GeneDefinitions { entries: e };
        proof {
            reveal_strlit("shell_base_color");
            reveal_strlit("shell_pattern_type");
            reveal_strlit("shell_pattern_color");
            reveal_strlit("pattern_color");
            reveal_strlit("shell_pattern_density");
            reveal_strlit("shell_pattern_opacity");
            reveal_strlit("shell_size_modifier");
            reveal_strlit("body_base_color");
            reveal_strlit("body_pattern_type");
            reveal_strlit("body_pattern_color");
            reveal_strlit("body_pattern_density");
            reveal_strlit("head_size_modifier");
            reveal_strlit("head_color");
            reveal_strlit("leg_length");
            reveal_strlit("limb_shape");
            reveal_strlit("leg_thickness_modifier");
            reveal_strlit("leg_color");
            reveal_strlit("eye_color");
            reveal_strlit("eye_size_modifier");
            assert forall|i: int, j: int| 0 <= i < j < r.size() implies r.name_at(i)
                != r.name_at(j) by {
                assert(r.name_at(0) == "shell_base_color"@);
                assert(r.name_at(1) == "shell_pattern_type"@);
                assert(r.name_at(2) == "shell_pattern_color"@);
                assert(r.name_at(3) == "pattern_color"@);
                assert(r.name_at(4) == "shell_pattern_density"@);
                assert(r.name_at(5) == "shell_pattern_opacity"@);
                assert(r.name_at(6) == "shell_size_modifier"@);
                assert(r.name_at(7) == "body_base_color"@);
                assert(r.name_at(8) == "body_pattern_type"@);
                assert(r.name_at(9) == "body_pattern_color"@);
                assert(r.name_at(10) == "body_pattern_density"@);
                assert(r.name_at(11) == "head_size_modifier"@);
                assert(r.name_at(12) == "head_color"@);
                assert(r.name_at(13) == "leg_length"@);
                assert(r.name_at(14) == "limb_shape"@);
                assert(r.name_at(15) == "leg_thickness_modifier"@);
                assert(r.name_at(16) == "leg_color"@);
                assert(r.name_at(17) == "eye_color"@);
                assert(r.name_at(18) == "eye_size_modifier"@);
                assert(r.name_at(1)[0] != r.name_at(9)[0]);
                assert(r.name_at(1)[0] != r.name_at(11)[0]);
                assert(r.name_at(9)[0] != r.name_at(11)[0]);
                assert(r.name_at(2)[6] != r.name_at(6)[6]);
                assert(r.name_at(4)[14] != r.name_at(5)[14]);
                assert(r.name_at(8)[0] != r.name_at(18)[0]);
                assert(r.name_at(12)[0] != r.name_at(13)[0]);
                assert(r.name_at(12)[0] != r.name_at(14)[0]);
                assert(r.name_at(13)[1] != r.name_at(14)[1]);
                assert(r.name_at(16)[0] != r.name_at(17)[0]);
            }
        }
        r
    }

    /// Number of registered genes.
    pub open spec fn size(self) -> int {
        self.entries@.len() as int
    }

    /// Name of the gene registered at position `i`.
    pub open spec fn name_at(self, i: int) -> Seq<char> {
        self.entries@[i].0@
    }

    /// Definition of the gene registered at position `i`.
    pub open spec fn def_at(self, i: int) -> GeneDefinition {
        self.entries@[i].1
    }

    /// Some gene is registered under this name.
    pub open spec fn has_gene(self, g: Seq<char>) -> bool {
        exists|i: int| 0 <= i < self.size() && self.name_at(i) == g
    }

    /// Position of the gene registered under a name.
    pub open spec fn idx_of(self, g: Seq<char>) -> int {
        choose|i: int| 0 <= i < self.size() && self.name_at(i) == g
    }

    /// Definition of the gene registered under a name.
    pub open spec fn def_of(self, g: Seq<char>) -> GeneDefinition {
        self.def_at(self.idx_of(g))
    }

    /// Names are pairwise distinct, every definition is well-formed,
    /// and the catalog is small enough for the score arithmetic.
    pub open spec fn wf(self) -> bool {
        &&& forall|i: int, j: int| 0 <= i < j < self.size() ==> self.name_at(i) != self.name_at(j)
        &&& forall|i: int| 0 <= i < self.size() ==> (#[trigger] self.def_at(i)).wf()
        &&& self.size() <= 100000
    }

    /// In a well-formed registry, a name occurring at position `i`
    /// makes `i` the position found by lookup.
    pub proof fn lemma_idx_of(self, i: int)
        requires
            self.wf(),
            0 <= i < self.size(),
        ensures
            self.idx_of(self.name_at(i)) == i,
            self.def_of(self.name_at(i)) == self.def_at(i),
            self.has_gene(self.name_at(i)),
    {
        let g = self.name_at(i);
        assert(self.has_gene(g));
        let j = self.idx_of(g);
        assert(0 <= j < self.size() && self.name_at(j) == g);
        if i < j {
            assert(self.name_at(i) != self.name_at(j));
        }
        if j < i {
            assert(self.name_at(j) != self.name_at(i));
        }
    }

    /// Look up a gene definition by name.
    pub fn get(&self, name: &str) -> (r: Option<&GeneDefinition>)
        requires
            self.wf(),
        ensures
            match r {
                Some(d) => self.has_gene(name@) && *d == self.def_of(name@),
                None => !self.has_gene(name@),
            },
    {
        let key: String = name.to_owned();
        let n: usize = self.entries.len();
        let mut i: usize = 0;
        while i < n
            invariant
                n == self.size(),
                i <= n,
                self.wf(),
                key@ == name@,
                forall|j: int| 0 <= j < i ==> self.name_at(j) != name@,
            decreases n - i,
        {
            if self.entries[i].0 == key {
                proof {
                    self.lemma_idx_of(i as int);
                }
                return Some(&self.entries[i].1);
            }
            i += 1;
        }
        None
    }

    /// The registered gene names, in registration order.
    pub fn names(&self) -> (r: Vec<String>)
        ensures
            r@.len() == self.size(),
            forall|i: int| 0 <= i < r@.len() ==> #[trigger] r@[i]@ == self.name_at(i),
    {
        let n: usize = self.entries.len();
        let mut r: Vec<String> = Vec::new();
        let mut i: usize = 0;
        while i < n
            invariant
                n == self.size(),
                i <= n,
                r@.len() == i,
                forall|j: int| 0 <= j < i ==> #[trigger] r@[j]@ == self.name_at(j),
            decreases n - i,
        {
            r.push(self.entries[i].0.clone());
            i += 1;
        }
        r
    }

    /// A complete trait set holding every gene's default value.
    pub fn get_defaults(&self) -> (t: TraitSet)
        requires
            self.wf(),
        ensures
            t.wf(),
            forall|g: Seq<char>| t@.contains_key(g) <==> self.has_gene(g),
            forall|i: int| 0 <= i < self.size() ==> t@[#[trigger] self.name_at(i)]
                == self.def_at(i).default,
    {
        let n: usize = self.entries.len();
        let mut t: TraitSet = TraitSet::new();
        let mut i: usize = 0;
        while i < n
            invariant
                n == self.size(),
                i <= n,
                self.wf(),
                t.wf(),
                forall|g: Seq<char>| #[trigger] t@.contains_key(g) ==> exists|j: int|
                    0 <= j < i && self.name_at(j) == g,
                forall|j: int| 0 <= j < i ==> t@.contains_key(#[trigger] self.name_at(j)),
                forall|j: int| 0 <= j < i ==> t@[#[trigger] self.name_at(j)]
                    == self.def_at(j).default,
            decreases n - i,
        {
            let ghost pre_map = t@;
            t.set(self.entries[i].0.clone(), self.entries[i].1.default.duplicate());
            proof {
                assert forall|g: Seq<char>| #[trigger] t@.contains_key(g) implies exists|j: int|
                    0 <= j < i + 1 && self.name_at(j) == g by {
                    if g == self.name_at(i as int) {
                        assert(0 <= i < i + 1 && self.name_at(i as int) == g);
                    } else {
                        assert(pre_map.contains_key(g));
                    }
                }
                assert forall|j: int| 0 <= j < i + 1 implies t@[#[trigger] self.name_at(j)]
                    == self.def_at(j).default by {
                    if j < i {
                        assert(self.name_at(j) != self.name_at(i as int));
                    }
                }
            }
            i += 1;
        }
        t
    }

    /// A complete trait set where every gene is drawn independently:
    /// colors as three uniform bytes, discrete genes as a uniform
    /// option, continuous genes uniform over their inclusive range.
    pub fn generate_random(&self, rng: &mut Prng) -> (t: TraitSet)
        requires
            self.wf(),
        ensures
            t.wf(),
            forall|g: Seq<char>| t@.contains_key(g) <==> self.has_gene(g),
            forall|i: int| 0 <= i < self.size() ==> value_ok(self.def_at(i),
                t@[#[trigger] self.name_at(i)]),
    {
        let n: usize = self.entries.len();
        let mut t: TraitSet = TraitSet::new();
        let mut i: usize = 0;
        while i < n
            invariant
                n == self.size(),
                i <= n,
                self.wf(),
                t.wf(),
                forall|g: Seq<char>| #[trigger] t@.contains_key(g) ==> exists|j: int|
                    0 <= j < i && self.name_at(j) == g,
                forall|j: int| 0 <= j < i ==> t@.contains_key(#[trigger] self.name_at(j)),
                forall|j: int| 0 <= j < i ==> value_ok(self.def_at(j),
                    t@[#[trigger] self.name_at(j)]),
            decreases n - i,
        {
            proof {
                assert(self.def_at(i as int).wf());
            }
            let value: GeneValue = random_value(&self.entries[i].1, rng);
            let ghost pre_map = t@;
            t.set(self.entries[i].0.clone(), value);
            proof {
                assert forall|g: Seq<char>| #[trigger] t@.contains_key(g) implies exists|j: int|
                    0 <= j < i + 1 && self.name_at(j) == g by {
                    if g == self.name_at(i as int) {
                        assert(0 <= i < i + 1 && self.name_at(i as int) == g);
                    } else {
                        assert(pre_map.contains_key(g));
                    }
                }
                assert forall|j: int| 0 <= j < i + 1 implies value_ok(self.def_at(j),
                    t@[#[trigger] self.name_at(j)]) by {
                    if j < i {
                        assert(self.name_at(j) != self.name_at(i as int));
                    }
                }
            }
            i += 1;
        }
        t
    }
}

impl GeneDefinitions {
    /// Judge one externally supplied (name, value) pair: unknown genes
    /// are ignored, mismatched kinds rejected, discrete values outside
    /// the option set rejected, continuous values clamped into range.
    pub fn validate_value(&self, name: &str, value: GeneValue) -> (r: Result<
        Option<GeneValue>,
        GeneError,
    >)
        requires
            self.wf(),
        ensures
            !self.has_gene(name@) ==> (r matches Ok(o) && o is None),
            self.has_gene(name@) ==> match r {
                Ok(o) => o matches Some(v) && validated(self.def_of(name@), value, v),
                Err(e) => rejected(self.def_of(name@), value, e),
            },
    {
        let def: &GeneDefinition = match self.get(name) {
            Some(d) => d,
            None => {
                return Ok(None);
            },
        };
        match def.kind {
            GeneKind::Rgb => {
                match value {
                    GeneValue::Rgb(c) => Ok(Some(GeneValue::Rgb(c))),
                    _ => Err(GeneError::KindMismatch),
                }
            },
            GeneKind::Discrete => {
                match value {
                    GeneValue::Discrete(s) => {
                        match &def.discrete_options {
                            Some(options) => {
                                if contains_string(options, &s) {
                                    Ok(Some(GeneValue::Discrete(s)))
                                } else {
                                    Err(GeneError::DomainViolation)
                                }
                            },
                            None => Err(GeneError::DomainViolation),
                        }
                    },
                    _ => Err(GeneError::KindMismatch),
                }
            },
            GeneKind::Continuous => {
                match value {
                    GeneValue::Continuous(f) => {
                        match def.continuous_range {
                            Some((lo, hi)) => {
                                let c: i64 = if f < lo {
                                    lo
                                } else if f > hi {
                                    hi
                                } else {
                                    f
                                };
                                Ok(Some(GeneValue::Continuous(c)))
                            },
                            None => Err(GeneError::KindMismatch),
                        }
                    },
                    _ => Err(GeneError::KindMismatch),
                }
            },
        }
    }

    /// Build a trait set from externally supplied pairs: unknown genes
    /// are silently dropped, and the first kind mismatch or domain
    /// violation rejects the whole batch.
    pub fn ingest(&self, entries: Vec<(String, GeneValue)>) -> (r: Result<TraitSet, GeneError>)
        requires
            self.wf(),
        ensures
            match r {
                Ok(t) => {
                    &&& t.wf()
                    &&& forall|g: Seq<char>| #[trigger] t@.contains_key(g) ==> self.has_gene(g)
                        && value_ok(self.def_of(g), t@[g])
                    &&& forall|k: int| 0 <= k < entries@.len() && self.has_gene(
                        #[trigger] entries@[k].0@) ==> t@.contains_key(entries@[k].0@)
                },
                Err(e) => exists|k: int| 0 <= k < entries@.len() && self.has_gene(
                    #[trigger] entries@[k].0@) && rejected(self.def_of(entries@[k].0@),
                    entries@[k].1, e),
            },
    {
        let n: usize = entries.len();
        let mut t: TraitSet = TraitSet::new();
        let mut k: usize = 0;
        while k < n
            invariant
                n == entries@.len(),
                k <= n,
                self.wf(),
                t.wf(),
                forall|g: Seq<char>| #[trigger] t@.contains_key(g) ==> self.has_gene(g)
                    && value_ok(self.def_of(g), t@[g]),
                forall|j: int| 0 <= j < k && self.has_gene(#[trigger] entries@[j].0@)
                    ==> t@.contains_key(entries@[j].0@),
            decreases n - k,
        {
            let name: &String = &entries[k].0;
            let value: GeneValue = entries[k].1.duplicate();
            match self.validate_value(name.as_str(), value) {
                Ok(Some(v)) => {
                    proof {
                        lemma_validated_ok(self.def_of(name@), entries@[k as int].1, v);
                        assert(self.def_of(name@).wf()) by {
                            let i = self.idx_of(name@);
                            assert(self.def_at(i).wf());
                        }
                    }
                    let ghost pre_map = t@;
                    t.set(name.clone(), v);
                    proof {
                        assert forall|g: Seq<char>| #[trigger] t@.contains_key(g) implies
                            self.has_gene(g) && value_ok(self.def_of(g), t@[g]) by {
                            if g != name@ {
                                assert(pre_map.contains_key(g));
                            }
                        }
                    }
                },
                Ok(None) => {},
                Err(e) => {
                    return Err(e);
                },
            }
            k += 1;
        }
        Ok(t)
    }
}

/// Is `s` one of the strings in `options`?
fn contains_string(options: &Vec<String>, s: &String) -> (r: bool)
    ensures
        r == exists|i: int| 0 <= i < options@.len() && options@[i]@ == s@,
{
    let n: usize = options.len();
    let mut i: usize = 0;
    while i < n
        invariant
            n == options@.len(),
            i <= n,
            forall|j: int| 0 <= j < i ==> options@[j]@ != s@,
        decreases n - i,
    {
        if options[i] == *s {
            return true;
        }
        i += 1;
    }
    false
}

/// One uniform draw from a definition's domain.
fn random_value(def: &GeneDefinition, rng: &mut Prng) -> (v: GeneValue)
    requires
        def.wf(),
    ensures
        value_ok(*def, v),
{
    match def.kind {
        GeneKind::Rgb => {
            let r: u64 = rng.below(256);
            let g: u64 = rng.below(256);
            let b: u64 = rng.below(256);
            GeneValue::Rgb(Rgb { r: r as u8, g: g as u8, b: b as u8 })
        },
        GeneKind::Discrete => {
            match &def.discrete_options {
                Some(options) => {
                    let k: u64 = rng.below(options.len() as u64);
                    GeneValue::Discrete(options[k as usize].clone())
                },
                None => def.default.duplicate(),
            }
        },
        GeneKind::Continuous => {
            match def.continuous_range {
                Some((lo, hi)) => {
                    let width: u64 = (hi - lo) as u64;
                    let d: u64 = rng.below(width + 1);
                    GeneValue::Continuous(lo + d as i64)
                },
                None => def.default.duplicate(),
            }
        },
    }
}

} // verus!
