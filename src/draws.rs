//! The raw random factors of a star and of a planet, drawn once when the
//! body is made. Draws are kept as numerators over `2^83`.
use vstd::prelude::*;
use crate::random::{DspRandom, nth_draw, nth_seed, take_draws, steps, seeded_state};

verus! {

/// The random factors of a star.
#[derive(Debug, Clone, Copy, PartialEq, Eq, Structural)]
pub struct StarDraws {
    pub name_seed: i32,
    pub planets_seed: i32,
    /// The two uniform draws behind the star's normal mass sample.
    pub mass_draw1: i128,
    pub mass_draw2: i128,
    pub age_factor: i128,
    pub age_draw_n: i128,
    pub age_draw_t: i128,
    /// Zero for the birth star, which takes no such draw.
    pub mass_factor: i128,
    pub lifetime_factor: i128,
    pub radius_draw: i128,
}

/// The random factors of a planet.
#[derive(Debug, Clone, Copy, PartialEq, Eq, Structural)]
pub struct PlanetDraws {
    pub orbit_radius_draw1: i128,
    pub orbit_radius_draw2: i128,
    pub orbit_inclination_factor: i128,
    pub orbit_longitude_draw: i128,
    pub orbit_phase_draw: i128,
    pub obliquity_draw1: i128,
    pub obliquity_draw2: i128,
    pub rotation_draw1: i128,
    pub rotation_draw2: i128,
    pub rotation_phase_draw: i128,
    pub habitable_factor: i128,
    pub type_factor: i128,
    pub theme_rand1: i128,
    pub rotation_param: i128,
    pub theme_seed: i32,
}

/// The random factors of star `index` made from `seed`: three seeds from the
/// star's generator (name, factors, planets; one draw skipped before the
/// last), then the factors from the generator seeded with the second seed.
pub open spec fn star_draws_spec(seed: i32, index: int) -> StarDraws {
    let fseed = nth_seed(seed, 1) as i32;
    let shift: nat = if index == 0 { 0 } else { 1 };
    StarDraws {
        name_seed: nth_seed(seed, 0) as i32,
        planets_seed: nth_seed(seed, 3) as i32,
        mass_draw1: nth_draw(fseed, 0) as i128,
        mass_draw2: nth_draw(fseed, 1) as i128,
        age_factor: nth_draw(fseed, 2) as i128,
        age_draw_n: nth_draw(fseed, 3) as i128,
        age_draw_t: nth_draw(fseed, 4) as i128,
        mass_factor: if index == 0 { 0 } else { nth_draw(fseed, 5) as i128 },
        lifetime_factor: nth_draw(fseed, 5 + shift) as i128,
        radius_draw: nth_draw(fseed, 6 + shift) as i128,
    }
}

/// The random factors of a planet made from `info_seed`: fourteen draws,
/// three skipped, then the theme seed.
pub open spec fn planet_draws_spec(info_seed: i32) -> PlanetDraws {
    PlanetDraws {
        orbit_radius_draw1: nth_draw(info_seed, 0) as i128,
        orbit_radius_draw2: nth_draw(info_seed, 1) as i128,
        orbit_inclination_factor: nth_draw(info_seed, 2) as i128,
        orbit_longitude_draw: nth_draw(info_seed, 3) as i128,
        orbit_phase_draw: nth_draw(info_seed, 4) as i128,
        obliquity_draw1: nth_draw(info_seed, 5) as i128,
        obliquity_draw2: nth_draw(info_seed, 6) as i128,
        rotation_draw1: nth_draw(info_seed, 7) as i128,
        rotation_draw2: nth_draw(info_seed, 8) as i128,
        rotation_phase_draw: nth_draw(info_seed, 9) as i128,
        habitable_factor: nth_draw(info_seed, 10) as i128,
        type_factor: nth_draw(info_seed, 11) as i128,
        theme_rand1: nth_draw(info_seed, 12) as i128,
        rotation_param: nth_draw(info_seed, 13) as i128,
        theme_seed: nth_seed(info_seed, 17) as i32,
    }
}

impl StarDraws {
    /// Draws the random factors of star `index` from its seed.
    pub fn new(seed: i32, index: usize) -> (r: StarDraws)
        requires
            seed != i32::MIN,
        ensures
            r == star_draws_spec(seed, index as int),
    {
        let mut rand1 = DspRandom::new(seed);
        let name_seed = rand1.next_seed();
        let fseed = rand1.next_seed();
        rand1.next_draw();
        let planets_seed = rand1.next_seed();
        let mut rand2 = DspRandom::new(fseed);
        let n: usize = if index == 0 { 7 } else { 8 };
        let d = take_draws(&mut rand2, n);
        let shift: usize = if index == 0 { 0 } else { 1 };
        let r = StarDraws {
            name_seed,
            planets_seed,
            mass_draw1: d[0],
            mass_draw2: d[1],
            age_factor: d[2],
            age_draw_n: d[3],
            age_draw_t: d[4],
            mass_factor: if index == 0 { 0 } else { d[5] },
            lifetime_factor: d[5 + shift],
            radius_draw: d[6 + shift],
        };
        proof {
            let s0 = seeded_state(seed);
            reveal_with_fuel(steps, 4);
            assert(steps(s0, 0) == s0);
            assert(steps(s0, 1) == crate::random::step(s0));
            assert(steps(s0, 2) == crate::random::step(steps(s0, 1)));
            assert(steps(s0, 3) == crate::random::step(steps(s0, 2)));
        }
        r
    }
}

impl PlanetDraws {
    /// Draws the random factors of a planet from its info seed.
    pub fn new(info_seed: i32) -> (r: PlanetDraws)
        requires
            info_seed != i32::MIN,
        ensures
            r == planet_draws_spec(info_seed),
    {
        let mut rand = DspRandom::new(info_seed);
        let d = take_draws(&mut rand, 17);
        let theme_seed = rand.next_seed();
        PlanetDraws {
            orbit_radius_draw1: d[0],
            orbit_radius_draw2: d[1],
            orbit_inclination_factor: d[2],
            orbit_longitude_draw: d[3],
            orbit_phase_draw: d[4],
            obliquity_draw1: d[5],
            obliquity_draw2: d[6],
            rotation_draw1: d[7],
            rotation_draw2: d[8],
            rotation_phase_draw: d[9],
            habitable_factor: d[10],
            type_factor: d[11],
            theme_rand1: d[12],
            rotation_param: d[13],
            theme_seed,
        }
    }
}

} // verus!
