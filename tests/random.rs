use dsp_worldgen::DspRandom;

const SCALE: f64 = 9671406556917033397649408.0;

fn draw_f64(rand: &mut DspRandom) -> f64 {
    rand.next_draw() as f64 / SCALE
}

fn sample_f64(sample: i32) -> f64 {
    (sample as f64) * 4.6566128752458e-10
}

#[test]
fn rand_test_1() {
    let mut rand = DspRandom::new(1);
    assert_eq!(draw_f64(&mut rand), 0.36685459100029205);
    assert_eq!(draw_f64(&mut rand), 0.20793473031741336);
    assert_eq!(draw_f64(&mut rand), 0.9534165486476468);
    assert_eq!(draw_f64(&mut rand), 0.2524418142868402);
    assert_eq!(draw_f64(&mut rand), 0.9074322701932087);
}

#[test]
fn rand_test_2() {
    let mut rand = DspRandom::new(1575693681);
    assert_eq!(draw_f64(&mut rand), 0.7679300078972854);
    assert_eq!(draw_f64(&mut rand), 0.7785721038368406);
    assert_eq!(draw_f64(&mut rand), 0.7108933994131602);
    assert_eq!(draw_f64(&mut rand), 0.2166100252497058);
    assert_eq!(draw_f64(&mut rand), 0.27458891844124966);
}

#[test]
fn draws_match_double_arithmetic() {
    let seeds: [i32; 6] = [0, 1, -1, 42, 2147483647, -2147483647];
    let maxes: [i32; 5] = [2, 7, 100, 1000000, -13];
    for seed in seeds {
        let mut raw = DspRandom::new(seed);
        let mut by_draw = DspRandom::new(seed);
        let mut by_seed = DspRandom::new(seed);
        let mut by_usize = DspRandom::new(seed);
        let mut by_i32 = DspRandom::new(seed);
        for k in 0..2000 {
            let f = sample_f64(raw.next_sample());
            assert_eq!(by_draw.next_draw() as f64 / SCALE, f);
            assert_eq!(by_seed.next_seed(), (f * (2147483647_i32 as f64)) as i32);
            assert_eq!(by_usize.next_usize(), (f * (2147483647_i32 as f64)) as usize);
            let m = maxes[k % maxes.len()];
            assert_eq!(by_i32.next_i32(m), (f * (m as f64)) as i32);
        }
    }
}

#[test]
fn seed_is_kept() {
    let rand = DspRandom::new(-77);
    assert_eq!(rand.seed(), -77);
}

#[test]
fn scaling_matches_double_arithmetic_on_many_samples() {
    let mut s: i64 = 0;
    while s < 2147483647 {
        let f = sample_f64(s as i32);
        let numer = (f * SCALE) as i128;
        assert_eq!(numer as f64 / SCALE, f);
        let t = dsp_worldgen::double::scale_draw(numer, 2147483647);
        assert_eq!(t, (f * 2147483647.0) as i128);
        let t2 = dsp_worldgen::double::scale_draw(numer, 55);
        assert_eq!(t2, (f * 55.0) as i128);
        s += 104729;
    }
}

#[test]
fn different_seeds_give_different_streams() {
    let mut a = DspRandom::new(5);
    let mut b = DspRandom::new(6);
    assert_ne!(a.next_sample(), b.next_sample());
}

#[test]
fn negative_seed_equals_positive_seed() {
    let mut a = DspRandom::new(-12345);
    let mut b = DspRandom::new(12345);
    for _ in 0..100 {
        assert_eq!(a.next_sample(), b.next_sample());
    }
}
