use dsp_worldgen::{planet_slots, DspRandom, PlanetSlot, SpectrType, StarType};

const SCALE: f64 = 9671406556917033397649408.0;

struct FloatRand(DspRandom);

impl FloatRand {
    fn f64(&mut self) -> f64 {
        (self.0.next_sample() as f64) * 4.6566128752458e-10
    }
    fn seed(&mut self) -> i32 {
        (self.f64() * (2147483647_i32 as f64)) as i32
    }
}

const P_GASES: [[f64; 6]; 10] = [
    [0.0, 0.0, 0.0, 0.0, 0.0, 0.0],
    [0.2, 0.2, 0.0, 0.0, 0.0, 0.0],
    [0.0, 0.2, 0.3, 0.0, 0.0, 0.0],
    [0.18, 0.18, 0.0, 0.0, 0.0, 0.0],
    [0.0, 0.18, 0.28, 0.28, 0.0, 0.0],
    [0.0, 0.2, 0.3, 0.3, 0.0, 0.0],
    [0.0, 0.22, 0.31, 0.31, 0.0, 0.0],
    [0.1, 0.28, 0.3, 0.35, 0.0, 0.0],
    [0.1, 0.22, 0.28, 0.35, 0.35, 0.0],
    [0.1, 0.2, 0.25, 0.3, 0.32, 0.35],
];

/// Straightforward floating-point layout, written independently of the library.
fn reference(star_type: StarType, spectr: SpectrType, birth: bool, seed: i32) -> Vec<PlanetSlot> {
    let mut r = FloatRand(DspRandom::new(seed));
    let num1 = r.f64();
    let num2 = r.f64();
    let num3: usize = if r.f64() > 0.5 { 1 } else { 0 };
    for _ in 0..4 {
        r.f64();
    }
    let mut out: Vec<PlanetSlot> = vec![];
    let mut mk = |r: &mut FloatRand, index: usize, orbit: usize, gas: bool, around: Option<usize>| {
        let info_seed = r.seed();
        let gen_seed = r.seed();
        PlanetSlot { index, orbit_index: orbit, gas_giant: gas, orbit_around: around, info_seed, gen_seed }
    };
    match star_type {
        StarType::BlackHole | StarType::NeutronStar => out.push(mk(&mut r, 0, 3, false, None)),
        StarType::WhiteDwarf => {
            if num1 < 0.7 {
                out.push(mk(&mut r, 0, 3, false, None));
            } else if num2 < 0.3 {
                out.push(mk(&mut r, 0, 3, false, None));
                out.push(mk(&mut r, 1, 4, false, None));
            } else {
                out.push(mk(&mut r, 0, 4, true, None));
                out.push(mk(&mut r, 1, 1, false, Some(0)));
            }
        }
        StarType::GiantStar => {
            if num1 < 0.3 {
                out.push(mk(&mut r, 0, 2 + num3, false, None));
            } else if num1 < 0.8 {
                if num2 < 0.25 {
                    out.push(mk(&mut r, 0, 2 + num3, false, None));
                    out.push(mk(&mut r, 1, 3 + num3, false, None));
                } else {
                    out.push(mk(&mut r, 0, 3, true, None));
                    out.push(mk(&mut r, 1, 1, false, Some(0)));
                }
            } else if num2 < 0.15 {
                out.push(mk(&mut r, 0, 2 + num3, false, None));
                out.push(mk(&mut r, 1, 3 + num3, false, None));
                out.push(mk(&mut r, 2, 4 + num3, false, None));
            } else if num2 < 0.75 {
                out.push(mk(&mut r, 0, 2 + num3, false, None));
                out.push(mk(&mut r, 1, 4, true, None));
                out.push(mk(&mut r, 2, 1, false, Some(1)));
            } else {
                out.push(mk(&mut r, 0, 3 + num3, true, None));
                out.push(mk(&mut r, 1, 1, false, Some(0)));
                out.push(mk(&mut r, 2, 2, false, Some(0)));
            }
        }
        StarType::MainSeqStar => {
            let (count, p_gas): (usize, [f64; 6]) = if birth {
                (4, P_GASES[0])
            } else {
                match spectr {
                    SpectrType::M => {
                        let c = if num1 >= 0.8 { 4 } else if num1 >= 0.3 { 3 } else if num1 >= 0.1 { 2 } else { 1 };
                        (c, if c <= 3 { P_GASES[1] } else { P_GASES[2] })
                    }
                    SpectrType::K => {
                        let c = if num1 >= 0.95 { 5 } else if num1 >= 0.7 { 4 } else if num1 >= 0.2 { 3 } else if num1 >= 0.1 { 2 } else { 1 };
                        (c, if c <= 3 { P_GASES[3] } else { P_GASES[4] })
                    }
                    SpectrType::G => {
                        let c = if num1 >= 0.9 { 5 } else if num1 >= 0.4 { 4 } else { 3 };
                        (c, if c <= 3 { P_GASES[3] } else { P_GASES[5] })
                    }
                    SpectrType::F => {
                        let c = if num1 >= 0.8 { 5 } else if num1 >= 0.35 { 4 } else { 3 };
                        (c, if c <= 3 { P_GASES[1] } else { P_GASES[6] })
                    }
                    SpectrType::A => {
                        let c = if num1 >= 0.75 { 5 } else if num1 >= 0.3 { 4 } else { 3 };
                        (c, if c <= 3 { P_GASES[1] } else { P_GASES[7] })
                    }
                    SpectrType::B => {
                        let c = if num1 >= 0.75 { 6 } else if num1 >= 0.3 { 5 } else { 4 };
                        (c, if c <= 3 { P_GASES[1] } else { P_GASES[8] })
                    }
                    SpectrType::O => (if num1 >= 0.5 { 6 } else { 5 }, P_GASES[9]),
                    SpectrType::X => (1, P_GASES[0]),
                }
            };
            let mut num8: usize = 0;
            let mut num9: usize = 0;
            let mut orbit_around: usize = 0;
            let mut num10: i64 = 1;
            for index in 0..count {
                let info_seed = r.seed();
                let gen_seed = r.seed();
                let num11 = r.f64();
                let num12 = r.f64();
                let mut gas = false;
                let orbit;
                let around;
                if orbit_around == 0 {
                    num8 += 1;
                    if index < count - 1 && num11 < p_gas[index] {
                        gas = true;
                        if num10 < 3 {
                            num10 = 3;
                        }
                    }
                    let mut broke = false;
                    while !birth || num10 != 3 {
                        let num13 = (count - index) as i64;
                        let num14 = 9 - num10;
                        if num14 > num13 {
                            let a = (num13 as f32) / (num14 as f32);
                            let a2 = if num10 <= 3 { 0.15_f32 } else { 0.45_f32 };
                            let num15 = a + (1.0 - a) * a2 + 0.01;
                            if r.f64() < num15 as f64 {
                                broke = true;
                                break;
                            }
                        } else {
                            broke = true;
                            break;
                        }
                        num10 += 1;
                    }
                    if !broke {
                        gas = true;
                    }
                    orbit = num10 as usize;
                    around = None;
                } else {
                    num9 += 1;
                    orbit = num9;
                    around = Some(orbit_around - 1);
                }
                out.push(PlanetSlot { index, orbit_index: orbit, gas_giant: gas, orbit_around: around, info_seed, gen_seed });
                num10 += 1;
                if gas {
                    orbit_around = num8;
                    num9 = 0;
                }
                if num9 >= 1 && num12 < 0.8 {
                    orbit_around = 0;
                    num9 = 0;
                }
            }
        }
    }
    out
}

const TYPES: [StarType; 5] = [
    StarType::MainSeqStar,
    StarType::GiantStar,
    StarType::WhiteDwarf,
    StarType::NeutronStar,
    StarType::BlackHole,
];
const CLASSES: [SpectrType; 8] = [
    SpectrType::M,
    SpectrType::K,
    SpectrType::G,
    SpectrType::F,
    SpectrType::A,
    SpectrType::B,
    SpectrType::O,
    SpectrType::X,
];

#[test]
fn layouts_match_floating_point_reference() {
    let mut seeds = DspRandom::new(2024);
    for _ in 0..400 {
        let seed = seeds.next_seed();
        for t in TYPES {
            for c in CLASSES {
                for birth in [false, true] {
                    assert_eq!(planet_slots(t, c, birth, seed), reference(t, c, birth, seed));
                }
            }
        }
    }
}

#[test]
fn black_hole_has_one_planet_in_slot_three() {
    for seed in [0, 1, 77, 123456] {
        let slots = planet_slots(StarType::BlackHole, SpectrType::X, false, seed);
        assert_eq!(slots.len(), 1);
        assert_eq!(slots[0].orbit_index, 3);
        assert!(!slots[0].gas_giant);
        assert_eq!(slots[0].orbit_around, None);
    }
}

#[test]
fn birth_star_has_four_planets() {
    for seed in 0..50 {
        let slots = planet_slots(StarType::MainSeqStar, SpectrType::G, true, seed);
        assert_eq!(slots.len(), 4);
    }
}

#[test]
fn satellites_orbit_an_earlier_planet() {
    let mut seeds = DspRandom::new(7);
    for _ in 0..2000 {
        let seed = seeds.next_seed();
        for c in CLASSES {
            let slots = planet_slots(StarType::MainSeqStar, c, false, seed);
            assert!(slots.len() >= 1 && slots.len() <= 6);
            for s in &slots {
                if let Some(p) = s.orbit_around {
                    assert!(p < s.index);
                }
            }
        }
    }
}

#[test]
fn draw_scale_constant() {
    assert_eq!(SCALE, 2f64.powi(83));
}

#[test]
fn generation_is_repeatable() {
    for seed in [0, 9, 31415] {
        for c in CLASSES {
            assert_eq!(
                planet_slots(StarType::MainSeqStar, c, false, seed),
                planet_slots(StarType::MainSeqStar, c, false, seed)
            );
        }
        assert_eq!(dsp_worldgen::StarDraws::new(seed, 3), dsp_worldgen::StarDraws::new(seed, 3));
    }
}

#[test]
fn birth_star_of_seed_zero_has_one_birth_planet() {
    // galaxy generator: positions seed, four kind draws, then one seed per star
    let mut galaxy = DspRandom::new(0);
    galaxy.next_seed();
    for _ in 0..4 {
        galaxy.next_draw();
    }
    let star0 = galaxy.next_seed();
    let draws = dsp_worldgen::StarDraws::new(star0, 0);
    let kinds = dsp_worldgen::star_kinds(64, 1, 1, 2, 1);
    assert_eq!(kinds[0].star_type, StarType::MainSeqStar);
    let slots = planet_slots(StarType::MainSeqStar, SpectrType::X, true, draws.planets_seed);
    let birth: Vec<&PlanetSlot> =
        slots.iter().filter(|s| s.orbit_index == 1 && s.orbit_around.is_some()).collect();
    assert_eq!(birth.len(), 1);
    assert!(!birth[0].gas_giant);
    assert!(slots[birth[0].orbit_around.unwrap()].gas_giant);
}
