use dsp_worldgen::{
    choose_theme, vein_groups, DspRandom, PlanetDraws, PlanetType, RareVein, StarDraws, StarType,
    ThemeDistribute, ThemeInfo, ThemeRequest, VeinType,
};

const SCALE: f64 = 9671406556917033397649408.0;

fn unit(numer: i128) -> f64 {
    numer as f64 / SCALE
}

fn f(rand: &mut DspRandom) -> f64 {
    (rand.next_sample() as f64) * 4.6566128752458e-10
}

fn fseed(rand: &mut DspRandom) -> i32 {
    (f(rand) * 2147483647.0) as i32
}

#[test]
fn star_draws_follow_the_draw_order() {
    for (seed, index) in [(1, 0usize), (1, 5), (987654, 1), (-5, 0), (2024, 63)] {
        let d = StarDraws::new(seed, index);
        let mut rand1 = DspRandom::new(seed);
        assert_eq!(d.name_seed, fseed(&mut rand1));
        let mut rand2 = DspRandom::new(fseed(&mut rand1));
        f(&mut rand1);
        assert_eq!(d.planets_seed, fseed(&mut rand1));
        assert_eq!(unit(d.mass_draw1), f(&mut rand2));
        assert_eq!(unit(d.mass_draw2), f(&mut rand2));
        assert_eq!(unit(d.age_factor), f(&mut rand2));
        assert_eq!(unit(d.age_draw_n), f(&mut rand2));
        assert_eq!(unit(d.age_draw_t), f(&mut rand2));
        if index == 0 {
            assert_eq!(d.mass_factor, 0);
        } else {
            assert_eq!(unit(d.mass_factor), f(&mut rand2));
        }
        assert_eq!(unit(d.lifetime_factor), f(&mut rand2));
        assert_eq!(unit(d.radius_draw), f(&mut rand2));
    }
}

#[test]
fn planet_draws_follow_the_draw_order() {
    for seed in [0, 3, 44444, -99, 2147483647] {
        let d = PlanetDraws::new(seed);
        let mut r = DspRandom::new(seed);
        let expect: Vec<f64> = (0..14).map(|_| f(&mut r)).collect();
        let got = [
            d.orbit_radius_draw1,
            d.orbit_radius_draw2,
            d.orbit_inclination_factor,
            d.orbit_longitude_draw,
            d.orbit_phase_draw,
            d.obliquity_draw1,
            d.obliquity_draw2,
            d.rotation_draw1,
            d.rotation_draw2,
            d.rotation_phase_draw,
            d.habitable_factor,
            d.type_factor,
            d.theme_rand1,
            d.rotation_param,
        ];
        for k in 0..14 {
            assert_eq!(unit(got[k]), expect[k]);
        }
        f(&mut r);
        f(&mut r);
        f(&mut r);
        assert_eq!(d.theme_seed, fseed(&mut r));
    }
}

fn catalog() -> Vec<ThemeInfo> {
    vec![
        ThemeInfo { id: 1, planet_type: PlanetType::Ocean, distribute: ThemeDistribute::Birth },
        ThemeInfo { id: 2, planet_type: PlanetType::Desert, distribute: ThemeDistribute::Default },
        ThemeInfo { id: 3, planet_type: PlanetType::Ice, distribute: ThemeDistribute::Default },
        ThemeInfo { id: 4, planet_type: PlanetType::Ice, distribute: ThemeDistribute::Interstellar },
        ThemeInfo { id: 5, planet_type: PlanetType::Gas, distribute: ThemeDistribute::Default },
        ThemeInfo { id: 6, planet_type: PlanetType::Ocean, distribute: ThemeDistribute::Default },
        ThemeInfo { id: 7, planet_type: PlanetType::Desert, distribute: ThemeDistribute::Rare },
    ]
}

fn draw(x: f64) -> i128 {
    (x * SCALE) as i128
}

#[test]
fn birth_planet_takes_a_birth_theme() {
    let cat = catalog();
    let mut used = vec![];
    let req = ThemeRequest { planet_type: PlanetType::Ocean, birth_star: true, draw: draw(0.9) };
    let k = choose_theme(&cat, &mut used, req, &vec![true; 7]);
    assert_eq!(cat[k].id, 1);
    assert_eq!(used, vec![1]);
}

#[test]
fn draw_picks_among_candidates() {
    let cat = catalog();
    let ok = vec![true; 7];
    let low = ThemeRequest { planet_type: PlanetType::Ice, birth_star: false, draw: draw(0.2) };
    let high = ThemeRequest { planet_type: PlanetType::Ice, birth_star: false, draw: draw(0.7) };
    assert_eq!(cat[choose_theme(&cat, &mut vec![], low, &ok)].id, 3);
    assert_eq!(cat[choose_theme(&cat, &mut vec![], high, &ok)].id, 4);
}

#[test]
fn birth_star_takes_default_themes_only() {
    let cat = catalog();
    let req = ThemeRequest { planet_type: PlanetType::Ice, birth_star: true, draw: draw(0.99) };
    assert_eq!(cat[choose_theme(&cat, &mut vec![], req, &vec![true; 7])].id, 3);
}

#[test]
fn used_and_unsuited_themes_fall_back_to_desert() {
    let cat = catalog();
    let mut used = vec![3, 4];
    let req = ThemeRequest { planet_type: PlanetType::Ice, birth_star: false, draw: draw(0.0) };
    let k = choose_theme(&cat, &mut used, req, &vec![true; 7]);
    assert_eq!(cat[k].id, 2);
    assert_eq!(used, vec![3, 4, 2]);
    let mut all_used = vec![1, 2, 3, 4, 5, 6, 7];
    let k = choose_theme(&cat, &mut all_used, req, &vec![true; 7]);
    assert_eq!(cat[k].id, 2);
    let warm = vec![true, true, false, false, true, true, true];
    let k = choose_theme(&cat, &mut vec![], req, &warm);
    assert_eq!(cat[k].id, 2);
}

#[test]
fn last_candidate_for_a_draw_near_one() {
    let cat = catalog();
    let req = ThemeRequest { planet_type: PlanetType::Desert, birth_star: false, draw: draw(0.9999) };
    assert_eq!(cat[choose_theme(&cat, &mut vec![], req, &vec![true; 7])].id, 2);
    let tiers = vec![false; 7];
    let req2 = ThemeRequest { planet_type: PlanetType::Vocano, birth_star: false, draw: draw(0.9999) };
    assert_eq!(cat[choose_theme(&cat, &mut vec![], req2, &tiers)].id, 7);
}

/// Cluster counts computed with plain floating-point draws.
fn reference_groups(seed: i32, star_type: StarType, spots: &[i32], rares: &[(usize, f64, f64)]) -> (Vec<i64>, Vec<bool>) {
    let mut r = DspRandom::new(seed);
    for _ in 0..6 {
        f(&mut r);
    }
    let mut c: Vec<i64> = spots.iter().map(|x| *x as i64).collect();
    let mut add_until = |r: &mut DspRandom, t: f64| {
        let mut n = 0;
        for _ in 1..12 {
            if f(r) >= t {
                break;
            }
            n += 1;
        }
        n
    };
    match star_type {
        StarType::WhiteDwarf => {
            c[9] += 2 + add_until(&mut r, 0.45);
            c[10] += 2 + add_until(&mut r, 0.45);
            c[12] += 1 + add_until(&mut r, 0.5);
        }
        StarType::NeutronStar | StarType::BlackHole => c[14] += 1 + add_until(&mut r, 0.65),
        _ => {}
    }
    let mut hits = vec![];
    for (vein, appear, grow) in rares {
        if f(&mut r) < *appear {
            c[*vein] += 1 + add_until(&mut r, *grow);
            hits.push(true);
        } else {
            hits.push(false);
        }
    }
    (c, hits)
}

#[test]
fn vein_groups_match_floating_point_reference() {
    let spots = [0, 6, 5, 3, 0, 2, 4, 1, 0, 0, 0, 0, 0, 0, 0];
    let rare_f = [(8usize, 0.3, 0.5), (11, 0.9, 0.2), (9, 0.05, 0.7)];
    let rares: Vec<RareVein> = rare_f
        .iter()
        .map(|(v, a, g)| RareVein { vein: *v, appear: (a * SCALE).ceil() as i128, grow: (g * SCALE).ceil() as i128 })
        .collect();
    let mut seeds = DspRandom::new(31337);
    for _ in 0..300 {
        let seed = seeds.next_seed();
        for t in [StarType::MainSeqStar, StarType::WhiteDwarf, StarType::NeutronStar, StarType::BlackHole] {
            let got = vein_groups(seed, t, &spots.to_vec(), &rares);
            assert_eq!(got, reference_groups(seed, t, &spots, &rare_f));
        }
    }
}

#[test]
fn white_dwarf_boosts_three_slots() {
    let spots = vec![0; 15];
    let (c, hits) = vein_groups(12, StarType::WhiteDwarf, &spots, &vec![]);
    assert!(c[9] >= 2 && c[9] <= 13);
    assert!(c[10] >= 2 && c[10] <= 13);
    assert!(c[12] >= 1 && c[12] <= 12);
    assert!(hits.is_empty());
    assert_eq!(c.iter().filter(|x| **x != 0).count(), 3);
    assert_eq!(VeinType::from_id(14), Some(VeinType::Mag));
    assert!(VeinType::Fireice.is_rare());
    assert!(!VeinType::Iron.is_rare());
}
