use dsp_worldgen::{
    find_stars, transform_rules, Condition, Galaxy, PlanetFacts, RuleBirth, RuleFlag, RuleGasCount,
    RuleOceanType, RulePlanetCount, RuleSatelliteCount, RuleSpectr, RuleStarType, RuleThemeId,
    RuleTidalLockCount, Rules, SpectrType, StarFacts, StarType,
};

fn planet(theme_id: i32, water: i32, gas: bool, satellite: bool, locked: bool, cold: bool) -> PlanetFacts {
    PlanetFacts { theme_id, water_item_id: water, gas_giant: gas, satellite, tidal_locked: locked, cold_theme: cold }
}

fn sample_stars() -> Vec<StarFacts> {
    vec![
        StarFacts {
            star_type: StarType::MainSeqStar,
            spectr: SpectrType::G,
            planets: vec![planet(1, 1000, false, false, false, false), planet(2, 0, true, false, false, true)],
            flags: vec![true],
        },
        StarFacts {
            star_type: StarType::BlackHole,
            spectr: SpectrType::X,
            planets: vec![planet(7, 0, false, false, true, false)],
            flags: vec![false],
        },
        StarFacts {
            star_type: StarType::MainSeqStar,
            spectr: SpectrType::M,
            planets: vec![
                planet(3, 0, true, false, false, false),
                planet(4, 1116, false, true, false, false),
                planet(5, 0, false, false, true, false),
            ],
            flags: vec![true],
        },
        StarFacts { star_type: StarType::NeutronStar, spectr: SpectrType::X, planets: vec![planet(9, 0, false, false, false, false)], flags: vec![false] },
    ]
}

fn galaxy() -> Galaxy {
    Galaxy::new(0, sample_stars())
}

fn star_type(types: Vec<StarType>) -> Rules {
    Rules::StarType(RuleStarType { star_type: types })
}

#[test]
fn empty_and_matches_every_star() {
    let mut g = galaxy();
    assert_eq!(find_stars(&mut g, 4, &Rules::And { rules: vec![] }), vec![0, 1, 2, 3]);
}

#[test]
fn empty_or_matches_no_star() {
    let mut g = galaxy();
    assert_eq!(find_stars(&mut g, 4, &Rules::Or { rules: vec![] }), Vec::<usize>::new());
}

#[test]
fn star_type_rule() {
    let mut g = galaxy();
    let r = star_type(vec![StarType::BlackHole, StarType::NeutronStar]);
    assert_eq!(find_stars(&mut g, 4, &r), vec![1, 3]);
}

#[test]
fn spectr_rule() {
    let mut g = galaxy();
    let r = Rules::Spectr(RuleSpectr { spectr: vec![SpectrType::M, SpectrType::G] });
    assert_eq!(find_stars(&mut g, 4, &r), vec![0, 2]);
}

#[test]
fn birth_rule() {
    let mut g = galaxy();
    assert_eq!(find_stars(&mut g, 4, &Rules::Birth(RuleBirth {})), vec![0]);
}

#[test]
fn planet_level_rules() {
    let mut g = galaxy();
    let theme = Rules::ThemeId(RuleThemeId { theme_ids: vec![4, 9] });
    assert_eq!(find_stars(&mut g, 4, &theme), vec![2, 3]);
    let ocean = Rules::OceanType(RuleOceanType { ocean_type: 1000 });
    assert_eq!(find_stars(&mut g, 4, &ocean), vec![0]);
    let count = Rules::PlanetCount(RulePlanetCount { condition: Condition::Gte(2) });
    assert_eq!(find_stars(&mut g, 4, &count), vec![0, 2]);
    let moons = Rules::SatelliteCount(RuleSatelliteCount { condition: Condition::Eq(1) });
    assert_eq!(find_stars(&mut g, 4, &moons), vec![2]);
    let locked = Rules::TidalLockCount(RuleTidalLockCount { condition: Condition::Between(1, 1) });
    assert_eq!(find_stars(&mut g, 4, &locked), vec![1, 2]);
    let gas = Rules::GasCount(RuleGasCount { ice: None, condition: Condition::Gt(0) });
    assert_eq!(find_stars(&mut g, 4, &gas), vec![0, 2]);
    let cold_gas = Rules::GasCount(RuleGasCount { ice: Some(true), condition: Condition::Gt(0) });
    assert_eq!(find_stars(&mut g, 4, &cold_gas), vec![0]);
    let flag = Rules::Flag(RuleFlag { priority: 20, flag: 0 });
    assert_eq!(find_stars(&mut g, 4, &flag), vec![0, 2]);
}

#[test]
fn and_or_combinations() {
    let mut g = galaxy();
    let main = star_type(vec![StarType::MainSeqStar]);
    let m = Rules::Spectr(RuleSpectr { spectr: vec![SpectrType::M] });
    let and = Rules::And { rules: vec![main, m] };
    assert_eq!(find_stars(&mut g, 4, &and), vec![2]);
    let bh = star_type(vec![StarType::BlackHole]);
    let birth = Rules::Birth(RuleBirth {});
    let or = Rules::Or { rules: vec![bh, birth] };
    assert_eq!(find_stars(&mut g, 4, &or), vec![0, 1]);
}

#[test]
fn composite_rules() {
    let mut g = galaxy();
    let at_least_two_x = Rules::Composite {
        rule: Box::new(star_type(vec![StarType::BlackHole, StarType::NeutronStar])),
        condition: Condition::Gte(2),
    };
    assert_eq!(find_stars(&mut g, 4, &at_least_two_x), vec![0]);
    let at_least_three_x = Rules::Composite {
        rule: Box::new(star_type(vec![StarType::BlackHole, StarType::NeutronStar])),
        condition: Condition::Gte(3),
    };
    assert_eq!(find_stars(&mut g, 4, &at_least_three_x), Vec::<usize>::new());
    let both = Rules::CompositeAnd {
        rules: vec![star_type(vec![StarType::BlackHole]), star_type(vec![StarType::GiantStar])],
    };
    assert_eq!(find_stars(&mut g, 4, &both), Vec::<usize>::new());
    let either = Rules::CompositeOr {
        rules: vec![star_type(vec![StarType::GiantStar]), star_type(vec![StarType::NeutronStar])],
    };
    assert_eq!(find_stars(&mut g, 4, &either), vec![3]);
}

#[test]
fn star_level_rules_leave_planet_data_unused() {
    let mut g = galaxy();
    let r = Rules::And {
        rules: vec![star_type(vec![StarType::BlackHole]), Rules::Spectr(RuleSpectr { spectr: vec![SpectrType::X] })],
    };
    find_stars(&mut g, 4, &r);
    for i in 0..4 {
        assert!(!g.is_safe(i));
    }
}

#[test]
fn theme_rules_mark_planet_data_used() {
    let mut g = galaxy();
    find_stars(&mut g, 4, &Rules::ThemeId(RuleThemeId { theme_ids: vec![1] }));
    for i in 0..4 {
        assert!(g.is_safe(i));
    }
}

#[test]
fn narrowing_skips_the_planets_of_rejected_stars() {
    let mut g = galaxy();
    // the cheap rule rejects stars 1 to 3; the theme rule then marks only
    // the stars it looks at, up to the frontier
    let r = transform_rules(Rules::And {
        rules: vec![Rules::ThemeId(RuleThemeId { theme_ids: vec![1] }), Rules::Birth(RuleBirth {})],
    });
    assert_eq!(find_stars(&mut g, 4, &r), vec![0]);
    assert!(g.is_safe(0));
    assert!(!g.is_safe(3));
}

#[test]
fn ordering_puts_cheap_rules_first() {
    let r = transform_rules(Rules::And {
        rules: vec![
            Rules::ThemeId(RuleThemeId { theme_ids: vec![1] }),
            Rules::Birth(RuleBirth {}),
            Rules::Spectr(RuleSpectr { spectr: vec![SpectrType::G] }),
        ],
    });
    match &r {
        Rules::And { rules } => {
            let p: Vec<i32> = rules.iter().map(|x| x.get_priority()).collect();
            assert_eq!(p, vec![10, 21, 40]);
        }
        _ => panic!("not an and"),
    }
    assert_eq!(r.get_priority(), 40);
}

#[test]
fn reordering_keeps_results() {
    let build = || Rules::Or {
        rules: vec![
            Rules::ThemeId(RuleThemeId { theme_ids: vec![9] }),
            Rules::And {
                rules: vec![
                    Rules::PlanetCount(RulePlanetCount { condition: Condition::Lt(3) }),
                    star_type(vec![StarType::MainSeqStar]),
                ],
            },
        ],
    };
    let mut g1 = galaxy();
    let mut g2 = galaxy();
    let plain = find_stars(&mut g1, 4, &build());
    let ordered = transform_rules(build());
    assert_eq!(find_stars(&mut g2, 4, &ordered), plain);
    let twice = transform_rules(transform_rules(build()));
    let mut g3 = galaxy();
    assert_eq!(find_stars(&mut g3, 4, &twice), plain);
    assert_eq!(plain, vec![0, 3]);
}

#[test]
fn condition_evaluation() {
    assert!(Condition::Eq(3).eval(3));
    assert!(Condition::Neq(3).eval(2));
    assert!(Condition::Lt(3).eval(2));
    assert!(!Condition::Lt(3).eval(3));
    assert!(Condition::Lte(3).eval(3));
    assert!(Condition::Gt(3).eval(4));
    assert!(Condition::Gte(3).eval(3));
    assert!(Condition::Between(1, 3).eval(2));
    assert!(!Condition::Between(1, 3).eval(4));
    assert!(Condition::NotBetween(1, 3).eval(0));
    assert!(!Condition::NotBetween(1, 3).eval(2));
    assert!(Condition::Gte(1).eval_count(1));
}

#[test]
fn recompiling_a_compiled_rule_keeps_its_results() {
    let build = || Rules::And {
        rules: vec![
            Rules::Or {
                rules: vec![
                    Rules::ThemeId(RuleThemeId { theme_ids: vec![4] }),
                    star_type(vec![StarType::NeutronStar]),
                ],
            },
            Rules::PlanetCount(RulePlanetCount { condition: Condition::Gte(1) }),
        ],
    };
    let compiled = transform_rules(build());
    let recompiled = transform_rules(transform_rules(build()));
    let mut g1 = galaxy();
    let mut g2 = galaxy();
    let a = find_stars(&mut g1, 4, &compiled);
    assert_eq!(a, find_stars(&mut g2, 4, &recompiled));
    assert_eq!(a, vec![2, 3]);
}
