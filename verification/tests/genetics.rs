use turboshells::{
    GeneDefinition, GeneDefinitions, GeneError, GeneValue, Inheritance, Mutation, Prng, Rgb,
    TraitSet,
};

fn registry() -> GeneDefinitions {
    GeneDefinitions::new()
}

fn defaults() -> TraitSet {
    registry().get_defaults()
}

fn assert_same_traits(a: &TraitSet, b: &TraitSet) {
    let names = registry().names();
    assert_eq!(a.len(), b.len());
    for name in &names {
        assert_eq!(a.get(name.as_str()), b.get(name.as_str()), "gene {name}");
    }
}

#[test]
fn registry_contents() {
    let reg = registry();
    assert_eq!(reg.names().len(), 19);
    let shell = reg.get("shell_base_color").expect("registered");
    assert_eq!(shell.default.as_rgb(), Some(&Rgb::new(34, 139, 34)));
    let pattern = reg.get("shell_pattern_type").expect("registered");
    assert_eq!(pattern.default.as_discrete(), Some("hex"));
    let density = reg.get("shell_pattern_density").expect("registered");
    assert_eq!(density.continuous_range, Some((100, 1000)));
    assert_eq!(density.default.as_continuous(), Some(500));
    assert!(reg.get("carapace_gloss").is_none());
}

#[test]
fn defaults_are_complete() {
    let reg = registry();
    let t = defaults();
    assert_eq!(t.len(), 19);
    for name in &reg.names() {
        let def = reg.get(name.as_str()).expect("registered");
        assert_eq!(t.get(name.as_str()), Some(&def.default));
    }
}

#[test]
fn generate_random_stays_in_domains() {
    let reg = registry();
    let mut rng = Prng::from_seed(7);
    for _ in 0..50 {
        let t = reg.generate_random(&mut rng);
        assert_eq!(t.len(), 19);
        let v = t.get("shell_pattern_density").expect("present");
        let f = v.as_continuous().expect("continuous");
        assert!((100..=1000).contains(&f));
        let s = t.get("limb_shape").expect("present").as_discrete().expect("discrete");
        assert!(["flippers", "feet", "fins"].contains(&s));
        assert!(t.get("eye_color").expect("present").as_rgb().is_some());
    }
}

#[test]
fn inherit_self_reproduces_parent() {
    let reg = registry();
    let inh = Inheritance::new(reg);
    let t = defaults();
    let mut rng = Prng::from_seed(11);
    let child = inh.inherit(&t, &t, &mut rng);
    assert_same_traits(&child, &t);
}

#[test]
fn inherit_blended_self_reproduces_parent() {
    let reg = registry();
    let inh = Inheritance::new(reg);
    let t = defaults();
    let mut rng = Prng::from_seed(12);
    let child = inh.inherit_blended(&t, &t, &mut rng);
    assert_same_traits(&child, &t);
}

#[test]
fn inherit_takes_each_gene_from_a_parent() {
    let inh = Inheritance::new(registry());
    let mut rng = Prng::from_seed(21);
    let a = registry().generate_random(&mut rng);
    let b = registry().generate_random(&mut rng);
    let child = inh.inherit(&a, &b, &mut rng);
    for name in &registry().names() {
        let v = child.get(name.as_str()).expect("complete child");
        let from_a = a.get(name.as_str()) == Some(v);
        let from_b = b.get(name.as_str()) == Some(v);
        assert!(from_a || from_b, "gene {name} came from neither parent");
    }
}

#[test]
fn inherit_fills_missing_genes() {
    let inh = Inheritance::new(registry());
    let mut rng = Prng::from_seed(31);
    let mut only_density = TraitSet::new();
    only_density.set("shell_pattern_density".to_owned(), GeneValue::Continuous(250));
    let empty = TraitSet::new();
    let child = inh.inherit(&only_density, &empty, &mut rng);
    assert_eq!(
        child.get("shell_pattern_density"),
        Some(&GeneValue::Continuous(250)),
        "present in one parent"
    );
    assert_eq!(
        child.get("shell_pattern_type").and_then(|v| v.as_discrete()),
        Some("hex"),
        "absent in both parents falls back to the default"
    );
    assert_eq!(child.len(), 19);
}

#[test]
fn inherit_drops_unregistered_genes() {
    let inh = Inheritance::new(registry());
    let mut rng = Prng::from_seed(32);
    let mut t = TraitSet::new();
    t.set("carapace_gloss".to_owned(), GeneValue::Continuous(5));
    let child = inh.inherit(&t, &t, &mut rng);
    assert!(child.get("carapace_gloss").is_none());
}

#[test]
fn blended_continuous_is_the_mean() {
    let inh = Inheritance::new(registry());
    let mut rng = Prng::from_seed(41);
    let mut a = TraitSet::new();
    a.set("shell_pattern_density".to_owned(), GeneValue::Continuous(200));
    let mut b = TraitSet::new();
    b.set("shell_pattern_density".to_owned(), GeneValue::Continuous(800));
    let child = inh.inherit_blended(&a, &b, &mut rng);
    assert_eq!(child.get("shell_pattern_density"), Some(&GeneValue::Continuous(500)));
}

#[test]
fn blended_color_stays_between_parents() {
    let inh = Inheritance::new(registry());
    let mut rng = Prng::from_seed(42);
    let mut a = TraitSet::new();
    a.set("eye_color".to_owned(), GeneValue::Rgb(Rgb::new(0, 100, 255)));
    let mut b = TraitSet::new();
    b.set("eye_color".to_owned(), GeneValue::Rgb(Rgb::new(255, 100, 0)));
    let child = inh.inherit_blended(&a, &b, &mut rng);
    let c = child.get("eye_color").expect("present").as_rgb().expect("color");
    // Bias lies in [0.3, 0.7), so each channel lands strictly inside.
    assert!(c.r >= 76 && c.r <= 178, "r = {}", c.r);
    assert_eq!(c.g, 100);
    assert!(c.b >= 76 && c.b <= 178, "b = {}", c.b);
}

#[test]
fn similarity_of_identical_sets_is_full() {
    let inh = Inheritance::new(registry());
    let t = defaults();
    assert_eq!(inh.calculate_similarity(&t, &t), 1000);
}

#[test]
fn similarity_is_symmetric() {
    let inh = Inheritance::new(registry());
    let mut rng = Prng::from_seed(51);
    let a = registry().generate_random(&mut rng);
    let b = registry().generate_random(&mut rng);
    assert_eq!(inh.calculate_similarity(&a, &b), inh.calculate_similarity(&b, &a));
}

#[test]
fn similarity_counts_one_changed_gene() {
    let inh = Inheritance::new(registry());
    let t = defaults();
    let mut u = defaults();
    u.set("shell_pattern_type".to_owned(), GeneValue::Discrete("spots".to_owned()));
    // 18 of 19 genes agree: floor(18000 / 19) = 947.
    assert_eq!(inh.calculate_similarity(&t, &u), 947);
}

#[test]
fn similarity_penalizes_missing_genes() {
    let inh = Inheritance::new(registry());
    let mut a = TraitSet::new();
    a.set("shell_pattern_density".to_owned(), GeneValue::Continuous(100));
    let mut b = TraitSet::new();
    b.set("shell_pattern_density".to_owned(), GeneValue::Continuous(1000));
    // The one comparable gene is maximally distant and the other 18
    // count in the denominator only.
    assert_eq!(inh.calculate_similarity(&a, &b), 0);
    // A single matching gene over a 19-gene denominator: floor(1000/19).
    assert_eq!(inh.calculate_similarity(&a, &a), 52);
}

#[test]
fn mutate_with_zero_rate_is_identity() {
    let mu = Mutation::new(registry());
    let mut rng = Prng::from_seed(61);
    let t = defaults();
    let out = mu.mutate(&t, 0, &mut rng);
    assert_same_traits(&out, &t);
}

#[test]
fn mutate_full_rate_changes_every_discrete_gene() {
    let mu = Mutation::new(registry());
    let t = defaults();
    for seed in 0..20 {
        let mut rng = Prng::from_seed(seed);
        let out = mu.mutate(&t, 1000, &mut rng);
        for gene in ["shell_pattern_type", "body_pattern_type", "limb_shape"] {
            let before = t.get(gene).unwrap().as_discrete().unwrap();
            let after = out.get(gene).unwrap().as_discrete().unwrap();
            assert_ne!(before, after, "gene {gene}, seed {seed}");
        }
    }
}

#[test]
fn single_option_gene_never_mutates() {
    let reg = GeneDefinitions {
        entries: vec![(
            "armor_style".to_owned(),
            GeneDefinition::discrete(vec!["plated"], "plated", "Armor style"),
        )],
    };
    let mu = Mutation::new(reg);
    let mut t = TraitSet::new();
    t.set("armor_style".to_owned(), GeneValue::Discrete("plated".to_owned()));
    let mut rng = Prng::from_seed(71);
    for _ in 0..100 {
        let out = mu.mutate(&t, 1000, &mut rng);
        assert_eq!(out.get("armor_style").unwrap().as_discrete(), Some("plated"));
    }
}

#[test]
fn mutation_respects_domains_over_many_trials() {
    let mu = Mutation::new(registry());
    let t = defaults();
    let mut rng = Prng::from_seed(81);
    let mut gene_trials: u64 = 0;
    for _ in 0..600 {
        let out = mu.mutate(&t, 1000, &mut rng);
        for (name, lo, hi) in [
            ("shell_pattern_density", 100, 1000),
            ("shell_pattern_opacity", 300, 1000),
            ("shell_size_modifier", 500, 1500),
            ("body_pattern_density", 100, 1000),
            ("head_size_modifier", 700, 1300),
            ("leg_length", 500, 1500),
            ("leg_thickness_modifier", 700, 1300),
            ("eye_size_modifier", 800, 1200),
        ] {
            let f = out.get(name).unwrap().as_continuous().unwrap();
            assert!(f >= lo && f <= hi, "{name} = {f} outside [{lo}, {hi}]");
            gene_trials += 1;
        }
        for name in ["shell_base_color", "body_base_color", "head_color", "leg_color"] {
            let before = t.get(name).unwrap().as_rgb().unwrap().to_tuple();
            let after = out.get(name).unwrap().as_rgb().unwrap().to_tuple();
            for (b, a) in [
                (before.0, after.0),
                (before.1, after.1),
                (before.2, after.2),
            ] {
                let delta = (b as i32 - a as i32).abs();
                assert!(delta <= 30, "{name} channel moved by {delta}");
                gene_trials += 1;
            }
        }
    }
    assert!(gene_trials >= 10000);
}

#[test]
fn adaptive_mutate_keeps_values_in_domain() {
    let mu = Mutation::new(registry());
    let t = defaults();
    for sim in [0, 400, 600, 800, 950, 1000] {
        let mut rng = Prng::from_seed(90 + sim);
        let out = mu.adaptive_mutate(&t, sim, &mut rng);
        assert_eq!(out.len(), 19);
        let f = out.get("eye_size_modifier").unwrap().as_continuous().unwrap();
        assert!((800..=1200).contains(&f));
    }
}

#[test]
fn validate_rejects_kind_mismatch() {
    let reg = registry();
    assert_eq!(
        reg.validate_value("shell_base_color", GeneValue::Continuous(5)),
        Err(GeneError::KindMismatch)
    );
    assert_eq!(
        reg.validate_value("shell_pattern_density", GeneValue::Discrete("hex".to_owned())),
        Err(GeneError::KindMismatch)
    );
}

#[test]
fn validate_rejects_unlisted_option() {
    let reg = registry();
    assert_eq!(
        reg.validate_value("shell_pattern_type", GeneValue::Discrete("plaid".to_owned())),
        Err(GeneError::DomainViolation)
    );
}

#[test]
fn validate_clamps_continuous_values() {
    let reg = registry();
    assert_eq!(
        reg.validate_value("shell_pattern_density", GeneValue::Continuous(5000)),
        Ok(Some(GeneValue::Continuous(1000)))
    );
    assert_eq!(
        reg.validate_value("shell_pattern_density", GeneValue::Continuous(-5)),
        Ok(Some(GeneValue::Continuous(100)))
    );
}

#[test]
fn validate_ignores_unknown_genes() {
    let reg = registry();
    assert_eq!(reg.validate_value("carapace_gloss", GeneValue::Continuous(5)), Ok(None));
}

#[test]
fn ingest_builds_a_clean_trait_set() {
    let reg = registry();
    let t = reg
        .ingest(vec![
            ("shell_pattern_density".to_owned(), GeneValue::Continuous(9999)),
            ("carapace_gloss".to_owned(), GeneValue::Continuous(1)),
            ("limb_shape".to_owned(), GeneValue::Discrete("fins".to_owned())),
        ])
        .expect("all entries acceptable");
    assert_eq!(t.get("shell_pattern_density"), Some(&GeneValue::Continuous(1000)));
    assert!(t.get("carapace_gloss").is_none());
    assert_eq!(t.get("limb_shape").unwrap().as_discrete(), Some("fins"));
    let err = reg.ingest(vec![(
        "limb_shape".to_owned(),
        GeneValue::Discrete("wheels".to_owned()),
    )]);
    assert_eq!(err.err(), Some(GeneError::DomainViolation));
}

#[test]
fn color_distance_and_blend() {
    let black = Rgb::new(0, 0, 0);
    let white = Rgb::new(255, 255, 255);
    assert_eq!(black.distance(&white), 441672);
    assert_eq!(black.distance(&black), 0);
    assert_eq!(white.distance(&black), 441672);
    let a = Rgb::new(100, 40, 0);
    let b = Rgb::new(200, 40, 255);
    assert_eq!(a.blend(&b, 0), a);
    assert_eq!(a.blend(&b, 1000), b);
    assert_eq!(a.blend(&b, 500), Rgb::new(150, 40, 127));
    assert_eq!(Rgb::from_tuple((1, 2, 3)).to_tuple(), (1, 2, 3));
}

#[test]
fn integer_square_root() {
    assert_eq!(turboshells::isqrt(0), 0);
    assert_eq!(turboshells::isqrt(15), 3);
    assert_eq!(turboshells::isqrt(16), 4);
    assert_eq!(turboshells::isqrt(195075000000), 441672);
    assert_eq!(turboshells::isqrt(u64::MAX), 4294967295);
}
