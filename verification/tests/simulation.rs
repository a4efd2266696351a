use turboshells::{Prng, Race, Terrain, TerrainType, Turtle, TurtleStats};

fn default_turtle(name: &str) -> Turtle {
    Turtle::new(name.to_owned(), TurtleStats::default())
}

#[test]
fn terrain_parsing_is_case_insensitive() {
    assert_eq!(TerrainType::from_str("water"), TerrainType::Water);
    assert_eq!(TerrainType::from_str("WATER"), TerrainType::Water);
    assert_eq!(TerrainType::from_str("RoCkS"), TerrainType::Rocks);
    assert_eq!(TerrainType::from_str("Sand"), TerrainType::Sand);
    assert_eq!(TerrainType::from_str("mud"), TerrainType::Mud);
    assert_eq!(TerrainType::from_str("BoOsT"), TerrainType::Boost);
    assert_eq!(TerrainType::from_str("normal"), TerrainType::Normal);
    assert_eq!(TerrainType::from_str("lava"), TerrainType::Normal);
    assert_eq!(TerrainType::from_str(""), TerrainType::Normal);
}

#[test]
fn canonical_terrain_modifiers() {
    for (t, sm, ed) in [
        (Terrain::normal(), 1000, 1000),
        (Terrain::water(), 700, 1200),
        (Terrain::rocks(), 600, 1300),
        (Terrain::sand(), 800, 1100),
        (Terrain::mud(), 500, 1500),
        (Terrain::boost(), 1500, 800),
    ] {
        assert_eq!(t.speed_modifier, sm);
        assert_eq!(t.energy_drain, ed);
    }
    let t = Terrain::from_str("water", 900, 1100);
    assert_eq!(t.terrain_type, TerrainType::Water);
    assert_eq!(t.speed_modifier, 900);
}

#[test]
fn track_covers_the_length() {
    let mut rng = Prng::from_seed(1);
    // 500.0 over segments of 50.0 takes exactly 10 segments.
    assert_eq!(Terrain::generate_track(500000, 50000, &mut rng).len(), 10);
    // 520.0 needs an eleventh segment.
    assert_eq!(Terrain::generate_track(520000, 50000, &mut rng).len(), 11);
    assert_eq!(Terrain::generate_track(1, 50000, &mut rng).len(), 1);
    let track = Terrain::generate_track(2000000, 50000, &mut rng);
    assert_eq!(track.len(), 40);
    let canonical = [
        Terrain::normal(),
        Terrain::water(),
        Terrain::rocks(),
        Terrain::sand(),
        Terrain::mud(),
        Terrain::boost(),
    ];
    for seg in &track {
        assert!(canonical.contains(seg));
    }
}

#[test]
fn normal_segment_physics() {
    let mut t = default_turtle("Tina");
    assert_eq!(t.current_energy, 100000);
    let movement = t.update_physics(&Terrain::normal());
    // Baseline stats on a neutral segment: 5.0 of movement, and the
    // drain 0.5 * 0.8 * 1.0 takes energy from 100.0 to 99.6.
    assert_eq!(movement, 5000);
    assert_eq!(t.current_energy, 99600);
    assert!(!t.is_resting);
    assert!(!t.finished);
}

#[test]
fn terrain_specific_movement() {
    let stats = TurtleStats::default();
    for (terrain, expected) in [
        (Terrain::water(), 1750),  // 5.0 * (5/10) * 0.7
        (Terrain::rocks(), 1500),  // 5.0 * (5/10) * 0.6
        (Terrain::sand(), 5333),   // 5.0 * (1 + 5/15) * 0.8, floored
        (Terrain::mud(), 2500),    // 5.0 * (energy/max) * 0.5
        (Terrain::boost(), 9000),  // 5.0 * 1.5 * 1.2
    ] {
        let mut t = Turtle::new("Shelly".to_owned(), stats);
        assert_eq!(t.update_physics(&terrain), expected, "{:?}", terrain.terrain_type);
    }
}

#[test]
fn exhaustion_rests_until_half_energy() {
    let mut t = default_turtle("Resty");
    // A maximal drain (0.5 * 0.8 * 1000.0 = 400.0) empties the tank in
    // one tick.
    let harsh = Terrain::new(TerrainType::Normal, 1000, 1000000);
    let movement = t.update_physics(&harsh);
    assert_eq!(movement, 5000);
    assert_eq!(t.current_energy, 0);
    assert!(t.is_resting);
    // Recovery gains 5.0 * 0.1 * (1 + 3/20) = 0.575 per tick; resting
    // ends once energy reaches 50.0, i.e. after ceil(50/0.575) = 87
    // resting ticks.
    let mut resting_ticks = 0;
    while t.is_resting {
        let m = t.update_physics(&Terrain::normal());
        assert_eq!(m, 0, "a resting turtle does not move");
        resting_ticks += 1;
        assert!(resting_ticks < 1000, "turtle never recovered");
    }
    assert_eq!(resting_ticks, 87);
    assert_eq!(t.current_energy, 50025);
    // Back in business on the next tick.
    assert_eq!(t.update_physics(&Terrain::normal()), 5000);
}

#[test]
fn recovery_caps_at_max_energy() {
    let mut t = Turtle::new(
        "Bouncy".to_owned(),
        TurtleStats {
            speed: 5000,
            max_energy: 1000,
            recovery: 1000000,
            swim: 5000,
            climb: 5000,
            stamina: 1000000,
            luck: 3000,
        },
    );
    let harsh = Terrain::new(TerrainType::Normal, 1000, 1000000);
    t.update_physics(&harsh);
    assert_eq!(t.current_energy, 0);
    assert!(t.is_resting);
    t.update_physics(&Terrain::normal());
    // An enormous recovery stat still cannot push energy past capacity.
    assert_eq!(t.current_energy, 1000);
    assert!(!t.is_resting);
}

#[test]
fn reset_restores_the_starting_state() {
    let mut t = default_turtle("Fresh");
    t.update_physics(&Terrain::normal());
    t.race_distance = 31415;
    t.finished = true;
    t.reset_for_race();
    assert_eq!(t.current_energy, 100000);
    assert_eq!(t.race_distance, 0);
    assert!(!t.is_resting);
    assert!(!t.finished);
}

#[test]
fn turtle_ids_are_short_and_distinct() {
    let a = default_turtle("A");
    let b = default_turtle("B");
    assert_eq!(a.id.len(), 8);
    assert_eq!(b.id.len(), 8);
    assert_ne!(a.id, b.id);
}

#[test]
fn race_finishes_and_names_a_rostered_winner() {
    let mut rng = Prng::from_seed(5);
    let mut race = Race::new(500000, &mut rng);
    race.add_turtle(default_turtle("Apollo"));
    race.add_turtle(Turtle::new(
        "Bolt".to_owned(),
        TurtleStats { speed: 8000, ..TurtleStats::default() },
    ));
    let winner = race.run();
    assert!(winner == "Apollo" || winner == "Bolt");
    assert!(race.tick_count <= 5000);
    assert!(race.turtles.iter().any(|t| t.finished) || race.tick_count == 5000);
}

#[test]
fn empty_race_returns_the_sentinel() {
    let mut rng = Prng::from_seed(6);
    let mut race = Race::new(500000, &mut rng);
    assert_eq!(race.run(), "DRAW");
    assert!(race.tick_count <= 5000);
}

#[test]
fn tick_moves_unfinished_turtles() {
    let mut rng = Prng::from_seed(8);
    let mut race = Race::new(500000, &mut rng);
    race.add_turtle(default_turtle("Mover"));
    let over = race.tick();
    assert_eq!(race.tick_count, 1);
    assert!(race.turtles[0].race_distance > 0);
    assert!(!over);
}

#[test]
fn positions_keep_roster_order_on_ties() {
    let mut rng = Prng::from_seed(9);
    let mut race = Race::new(500000, &mut rng);
    for name in ["First", "Second", "Third"] {
        race.add_turtle(default_turtle(name));
    }
    // Before any tick every distance is 0: a three-way tie keeps the
    // roster order.
    let positions = race.get_positions();
    let names: Vec<&str> = positions.iter().map(|p| p.0.as_str()).collect();
    assert_eq!(names, ["First", "Second", "Third"]);
    for p in &positions {
        assert_eq!(p.1, 0);
    }
}

#[test]
fn positions_sort_descending_by_distance() {
    let mut rng = Prng::from_seed(10);
    let mut race = Race::new(500000, &mut rng);
    race.add_turtle(default_turtle("Slow"));
    race.add_turtle(Turtle::new(
        "Quick".to_owned(),
        TurtleStats { speed: 9000, ..TurtleStats::default() },
    ));
    race.run();
    let positions = race.get_positions();
    assert_eq!(positions.len(), 2);
    assert!(positions[0].1 >= positions[1].1);
}

#[test]
fn positions_break_mid_race_ties_by_roster_order() {
    let mut rng = Prng::from_seed(14);
    let mut race = Race::new(400000, &mut rng);
    // Two identical turtles tie exactly on every tick; the slow one
    // trails.
    race.add_turtle(Turtle::new(
        "Crawl".to_owned(),
        TurtleStats { speed: 1000, ..TurtleStats::default() },
    ));
    race.add_turtle(default_turtle("TwinA"));
    race.add_turtle(default_turtle("TwinB"));
    let winner = race.run();
    // An exact tie at the top goes to the earlier roster entry.
    assert_eq!(winner, "TwinA");
    let positions = race.get_positions();
    let names: Vec<&str> = positions.iter().map(|p| p.0.as_str()).collect();
    assert_eq!(positions[0].1, positions[1].1, "identical twins tie");
    assert_eq!(names, ["TwinA", "TwinB", "Crawl"]);
}

#[test]
fn run_resets_between_races() {
    let mut rng = Prng::from_seed(13);
    let mut race = Race::new(200000, &mut rng);
    race.add_turtle(default_turtle("Again"));
    let first = race.run();
    let second = race.run();
    assert_eq!(first, "Again");
    assert_eq!(second, "Again");
    assert!(race.tick_count <= 5000);
}
