//! Orbit slots of the planets of a star: how many planets, which are gas
//! giants, which orbit another planet, and the seeds each planet is made from.
use vstd::prelude::*;
use crate::enums::{SpectrType, StarType};
use crate::random::{DspRandom, RngState, step, sample_of, draw_numer, clamp_i32, seeded_state, MBIG};
use crate::double::scaled_trunc;

verus! {

// Thresholds are doubles written as their exact numerator over 2^83, the
// form in which draws are compared.
/// One half.
pub const HALF: i128 = 4835703278458516698824704;
/// Ten percent.
pub const PCT10: i128 = 967140655691703393452032;
/// Fifteen percent.
pub const PCT15: i128 = 1450710983537554955960320;
/// Twenty percent.
pub const PCT20: i128 = 1934281311383406786904064;
/// Twenty-five percent.
pub const PCT25: i128 = 2417851639229258349412352;
/// Thirty percent.
pub const PCT30: i128 = 2901421967075109911920640;
/// Thirty-five percent.
pub const PCT35: i128 = 3384992294920961474428928;
/// Forty percent.
pub const PCT40: i128 = 3868562622766813573808128;
/// Seventy percent.
pub const PCT70: i128 = 6769984589841922948857856;
/// Seventy-five percent.
pub const PCT75: i128 = 7253554917687775048237056;
/// Eighty percent.
pub const PCT80: i128 = 7737125245533627147616256;
/// Ninety percent.
pub const PCT90: i128 = 8704265901225330272632832;
/// Ninety-five percent.
pub const PCT95: i128 = 9187836229071181298270208;

/// One planet of a star before any of its physical data is derived.
#[derive(Debug, Clone, Copy, PartialEq, Eq, Structural)]
pub struct PlanetSlot {
    pub index: usize,
    /// Slot around the star, or around the parent planet for a satellite.
    pub orbit_index: usize,
    pub gas_giant: bool,
    /// Index of the planet this one orbits, if any.
    pub orbit_around: Option<usize>,
    pub info_seed: i32,
    pub gen_seed: i32,
}

/// The draw taken from state `s`, as its numerator over 2^83.
pub open spec fn draw_of(s: RngState) -> int {
    draw_numer(sample_of(s))
}

/// The seed drawn from state `s`.
#[verifier::opaque]
pub open spec fn seed_of(s: RngState) -> i32 {
    clamp_i32(scaled_trunc(draw_of(s), MBIG as int)) as i32
}

/// Chance, per row of the gas-giant table and per planet, that a planet is a
/// gas giant; rows: 0 birth star; 1 classes M, F, A, B with at most three
/// planets; 2 class M with four; 3 classes K, G with at most three; 4 class K
/// with more; 5 G with more; 6 F with more; 7 A with more; 8 B with more; 9 O.
pub open spec fn gas_chance(row: u8, k: u8) -> int {
    match (row, k) {
        (1, 0) => 1934281311383406786904064,  // 20%
        (1, 1) => 1934281311383406786904064,  // 20%
        (2, 1) => 1934281311383406786904064,  // 20%
        (2, 2) => 2901421967075109911920640,  // 30%
        (3, 0) => 1740853180245065947152384,  // 18%
        (3, 1) => 1740853180245065947152384,  // 18%
        (4, 1) => 1740853180245065947152384,  // 18%
        (4, 2) => 2707993835936769609039872,  // 28%
        (4, 3) => 2707993835936769609039872,  // 28%
        (5, 1) => 1934281311383406786904064,  // 20%
        (5, 2) => 2901421967075109911920640,  // 30%
        (5, 3) => 2901421967075109911920640,  // 30%
        (6, 1) => 2127709442521747358220288,  // 22%
        (6, 2) => 2998136032644280331796480,  // 31%
        (6, 3) => 2998136032644280331796480,  // 31%
        (7, 0) => 967140655691703393452032,  // 10%
        (7, 1) => 2707993835936769609039872,  // 28%
        (7, 2) => 2901421967075109911920640,  // 30%
        (7, 3) => 3384992294920961474428928,  // 35%
        (8, 0) => 967140655691703393452032,  // 10%
        (8, 1) => 2127709442521747358220288,  // 22%
        (8, 2) => 2707993835936769609039872,  // 28%
        (8, 3) => 3384992294920961474428928,  // 35%
        (8, 4) => 3384992294920961474428928,  // 35%
        (9, 0) => 967140655691703393452032,  // 10%
        (9, 1) => 1934281311383406786904064,  // 20%
        (9, 2) => 2417851639229258349412352,  // 25%
        (9, 3) => 2901421967075109911920640,  // 30%
        (9, 4) => 3094850098213450751672320,  // 32%
        (9, 5) => 3384992294920961474428928,  // 35%
        _ => 0,
    }
}

/// Chance that the orbit slot stops growing, given the planets left
/// (`left`), the slots left (`room`) and whether the slot is still an inner
/// one (`inner`): the single precision value of
/// `left / room + (1 - left / room) * (inner ? 0.15 : 0.45) + 0.01`.
pub open spec fn stop_chance(left: u8, room: u8, inner: bool) -> int {
    match (left, room, inner) {
        (1, 2, true) => 5657772628270593708392448,
        (1, 3, true) => 4287656853096881257971712,
        (1, 4, true) => 3602598965510025032761344,
        (1, 5, true) => 3191564002373610376265728,
        (1, 6, true) => 2917541077923168807550976,
        (1, 7, true) => 2721810170546816699858944,
        (1, 8, true) => 2575012134129740694945792,
        (2, 3, true) => 7027888979905058462236672,
        (2, 4, true) => 5657772628270593708392448,
        (2, 5, true) => 4835703278458516698824704,
        (2, 6, true) => 4287656853096881257971712,
        (2, 7, true) => 3896195326574553194299392,
        (2, 8, true) => 3602598965510025032761344,
        (3, 4, true) => 7712946867491914687447040,
        (3, 5, true) => 6479842554543423021383680,
        (3, 6, true) => 5657772628270593708392448,
        (3, 7, true) => 5070579906141537385316352,
        (3, 8, true) => 4630185796890309370576896,
        (4, 5, true) => 8123981254167577040519168,
        (4, 6, true) => 7027888979905058462236672,
        (4, 7, true) => 6244965350399650031468544,
        (4, 8, true) => 5657772628270593708392448,
        (5, 6, true) => 8398004178618018609233920,
        (5, 7, true) => 7419350794657762677620736,
        (5, 8, true) => 6685359459650878046208000,
        (6, 7, true) => 8593735662455123020349440,
        (6, 8, true) => 7712946867491914687447040,
        (1, 2, false) => 7108483957684600100093952,
        (1, 3, false) => 6221938049188137476816896,
        (1, 4, false) => 5778665094939906165178368,
        (1, 5, false) => 5512701668267418760249344,
        (1, 6, false) => 5335392140691674853539840,
        (1, 7, false) => 5208743136949860409802752,
        (1, 8, false) => 5113755663567559197720576,
        (2, 3, false) => 7995029289720310419947520,
        (2, 4, false) => 7108483957684600100093952,
        (2, 5, false) => 6576556527878872986812416,
        (2, 6, false) => 6221938049188137476816896,
        (2, 7, false) => 5968639465243756285919232,
        (2, 8, false) => 5778665094939906165178368,
        (3, 4, false) => 8438302243968541731586048,
        (3, 5, false) => 7640410811029574909952000,
        (3, 6, false) => 7108483957684600100093952,
        (3, 7, false) => 6728535217076899858612224,
        (3, 8, false) => 6443574526312253132636160,
        (4, 5, false) => 8704265670641029136515072,
        (4, 6, false) => 7995029289720310419947520,
        (4, 7, false) => 7488432121831548038152192,
        (4, 8, false) => 7108483957684600100093952,
        (5, 6, false) => 8881574621756020739801088,
        (5, 7, false) => 8248327873664691610845184,
        (5, 8, false) => 7773392812596194764128256,
        (6, 7, false) => 9008224201958587486961664,
        (6, 8, false) => 8438302243968541731586048,
        _ => 0,
    }
}

/// Planet count and gas-giant row of a main-sequence star, from its class and
/// the first draw.
pub open spec fn main_seq_shape(birth: bool, spectr: SpectrType, d: int) -> (int, int) {
    if birth {
        (4, 0)
    } else {
        match spectr {
            SpectrType::M => {
                let n = if d >= PCT80 { 4 } else if d >= PCT30 { 3 } else if d >= PCT10 { 2 } else { 1 };
                (n, if n <= 3 { 1 } else { 2 })
            },
            SpectrType::K => {
                let n = if d >= PCT95 { 5 } else if d >= PCT70 { 4 } else if d >= PCT20 { 3 } else if d >= PCT10 { 2 } else { 1 };
                (n, if n <= 3 { 3 } else { 4 })
            },
            SpectrType::G => {
                let n = if d >= PCT90 { 5 } else if d >= PCT40 { 4 } else { 3 };
                (n, if n <= 3 { 3 } else { 5 })
            },
            SpectrType::F => {
                let n = if d >= PCT80 { 5 } else if d >= PCT35 { 4 } else { 3 };
                (n, if n <= 3 { 1 } else { 6 })
            },
            SpectrType::A => {
                let n = if d >= PCT75 { 5 } else if d >= PCT30 { 4 } else { 3 };
                (n, if n <= 3 { 1 } else { 7 })
            },
            SpectrType::B => {
                let n = if d >= PCT75 { 6 } else if d >= PCT30 { 5 } else { 4 };
                (n, if n <= 3 { 1 } else { 8 })
            },
            SpectrType::O => (if d >= HALF { 6 } else { 5 }, 9),
            SpectrType::X => (1, 0),
        }
    }
}

/// The growth of the orbit slot of a planet that orbits the star: from slot
/// `slot`, with `left` planets left, the state after the draws taken, the
/// final slot, and whether growth stopped by a draw or for lack of room
/// (rather than by reaching slot 3 at the birth star).
pub open spec fn grow_slot(rng: RngState, slot: int, left: int, birth: bool) -> (RngState, int, bool)
    decreases 9 - slot,
{
    if birth && slot == 3 {
        (rng, slot, false)
    } else if 9 - slot > left && left >= 0 {
        if draw_of(rng) < stop_chance(left as u8, (9 - slot) as u8, slot <= 3) {
            (step(rng), slot, true)
        } else {
            grow_slot(step(rng), slot + 1, left, birth)
        }
    } else {
        (rng, slot, true)
    }
}

/// Running values of the slot assignment of a main-sequence star.
pub struct SlotRun {
    pub rng: RngState,
    /// Planets orbiting the star so far.
    pub direct: int,
    /// Satellites of the current gas giant so far.
    pub moons: int,
    /// One more than the index of the planet new satellites orbit; zero when
    /// new planets orbit the star.
    pub around: int,
    /// Next orbit slot around the star.
    pub slot: int,
}

/// Slot of planet `index` of a main-sequence star, and the running values
/// for the next planet.
pub open spec fn main_seq_step(run: SlotRun, index: int, count: int, row: int, birth: bool) -> (PlanetSlot, SlotRun) {
    {
        let info = seed_of(run.rng);
        let r1 = step(run.rng);
        let gen = seed_of(r1);
        let r2 = step(r1);
        let gas_draw = draw_of(r2);
        let r3 = step(r2);
        let detach_draw = draw_of(r3);
        let r4 = step(r3);
        if run.around == 0 {
            let direct = run.direct + 1;
            let drawn_gas = index < count - 1 && gas_draw < gas_chance(row as u8, index as u8);
            let slot0 = if drawn_gas && run.slot < 3 { 3 } else { run.slot };
            let grown = grow_slot(r4, slot0, count - index, birth);
            let gas = drawn_gas || !grown.2;
            let moons = if gas { 0 } else { run.moons };
            let around = if gas { direct } else { 0 };
            let detach = moons >= 1 && detach_draw < PCT80;
            let p = PlanetSlot {
                index: index as usize,
                orbit_index: grown.1 as usize,
                gas_giant: gas,
                orbit_around: None,
                info_seed: info,
                gen_seed: gen,
            };
            let next = SlotRun {
                rng: grown.0,
                direct,
                moons: if detach { 0 } else { moons },
                around: if detach { 0 } else { around },
                slot: grown.1 + 1,
            };
            (p, next)
        } else {
            let moons = run.moons + 1;
            let detach = detach_draw < PCT80;
            let p = PlanetSlot {
                index: index as usize,
                orbit_index: moons as usize,
                gas_giant: false,
                orbit_around: Some((run.around - 1) as usize),
                info_seed: info,
                gen_seed: gen,
            };
            let next = SlotRun {
                rng: r4,
                direct: run.direct,
                moons: if detach { 0 } else { moons },
                around: if detach { 0 } else { run.around },
                slot: run.slot + 1,
            };
            (p, next)
        }
    }
}

/// Slots of planets `index..count` of a main-sequence star.
pub open spec fn main_seq_from(run: SlotRun, index: int, count: int, row: int, birth: bool) -> Seq<PlanetSlot>
    decreases count - index,
{
    if index >= count {
        Seq::empty()
    } else {
        let st = main_seq_step(run, index, count, row, birth);
        seq![st.0] + main_seq_from(st.1, index + 1, count, row, birth)
    }
}

/// A planet at `index` with the given orbit, its two seeds drawn from `rng`.
pub open spec fn made(index: int, orbit: int, gas: bool, around: Option<usize>, rng: RngState) -> PlanetSlot {
    PlanetSlot {
        index: index as usize,
        orbit_index: orbit as usize,
        gas_giant: gas,
        orbit_around: around,
        info_seed: seed_of(rng),
        gen_seed: seed_of(step(rng)),
    }
}

/// The state after the two seeds of a planet are drawn.
pub open spec fn after_made(rng: RngState) -> RngState {
    step(step(rng))
}

/// Slots of the planets of a giant, a white dwarf, a neutron star or a black
/// hole, from the first two draws `d1`, `d2`, the slot shift `shift`, and the
/// state `r` from which planet seeds are drawn.
pub open spec fn fixed_layout(star_type: StarType, d1: int, d2: int, shift: int, r: RngState) -> Seq<PlanetSlot> {
    let ra = after_made(r);
    let rb = after_made(ra);
    match star_type {
        StarType::WhiteDwarf => if d1 < PCT70 {
            seq![made(0, 3, false, None, r)]
        } else if d2 < PCT30 {
            seq![made(0, 3, false, None, r), made(1, 4, false, None, ra)]
        } else {
            seq![made(0, 4, true, None, r), made(1, 1, false, Some(0usize), ra)]
        },
        StarType::GiantStar => if d1 < PCT30 {
            seq![made(0, 2 + shift, false, None, r)]
        } else if d1 < PCT80 {
            if d2 < PCT25 {
                seq![made(0, 2 + shift, false, None, r), made(1, 3 + shift, false, None, ra)]
            } else {
                seq![made(0, 3, true, None, r), made(1, 1, false, Some(0usize), ra)]
            }
        } else if d2 < PCT15 {
            seq![
                made(0, 2 + shift, false, None, r),
                made(1, 3 + shift, false, None, ra),
                made(2, 4 + shift, false, None, rb),
            ]
        } else if d2 < PCT75 {
            seq![
                made(0, 2 + shift, false, None, r),
                made(1, 4, true, None, ra),
                made(2, 1, false, Some(1usize), rb),
            ]
        } else {
            seq![
                made(0, 3 + shift, true, None, r),
                made(1, 1, false, Some(0usize), ra),
                made(2, 2, false, Some(0usize), rb),
            ]
        },
        _ => seq![made(0, 3, false, None, r)],
    }
}

/// Slots of the planets of a star of kind `star_type` and class `spectr`,
/// drawn from the generator seeded with `planets_seed`.
pub open spec fn planet_layout(star_type: StarType, spectr: SpectrType, birth: bool, planets_seed: i32) -> Seq<PlanetSlot> {
    let r0 = seeded_state(planets_seed);
    let d1 = draw_of(r0);
    let r1 = step(r0);
    let d2 = draw_of(r1);
    let r2 = step(r1);
    let d3 = draw_of(r2);
    let shift: int = if d3 > HALF { 1 } else { 0 };
    let r = step(step(step(step(step(r2)))));
    match star_type {
        StarType::MainSeqStar => {
            let shape = main_seq_shape(birth, spectr, d1);
            main_seq_from((SlotRun { rng: r, direct: 0, moons: 0, around: 0, slot: 1 }), 0, shape.0, shape.1, birth)
        },
        _ => fixed_layout(star_type, d1, d2, shift, r),
    }
}

fn gas_chance_exec(row: u8, k: u8) -> (r: i128)
    ensures
        r as int == gas_chance(row, k),
{
    match (row, k) {
        (1, 0) => 1934281311383406786904064,  // 20%
        (1, 1) => 1934281311383406786904064,  // 20%
        (2, 1) => 1934281311383406786904064,  // 20%
        (2, 2) => 2901421967075109911920640,  // 30%
        (3, 0) => 1740853180245065947152384,  // 18%
        (3, 1) => 1740853180245065947152384,  // 18%
        (4, 1) => 1740853180245065947152384,  // 18%
        (4, 2) => 2707993835936769609039872,  // 28%
        (4, 3) => 2707993835936769609039872,  // 28%
        (5, 1) => 1934281311383406786904064,  // 20%
        (5, 2) => 2901421967075109911920640,  // 30%
        (5, 3) => 2901421967075109911920640,  // 30%
        (6, 1) => 2127709442521747358220288,  // 22%
        (6, 2) => 2998136032644280331796480,  // 31%
        (6, 3) => 2998136032644280331796480,  // 31%
        (7, 0) => 967140655691703393452032,  // 10%
        (7, 1) => 2707993835936769609039872,  // 28%
        (7, 2) => 2901421967075109911920640,  // 30%
        (7, 3) => 3384992294920961474428928,  // 35%
        (8, 0) => 967140655691703393452032,  // 10%
        (8, 1) => 2127709442521747358220288,  // 22%
        (8, 2) => 2707993835936769609039872,  // 28%
        (8, 3) => 3384992294920961474428928,  // 35%
        (8, 4) => 3384992294920961474428928,  // 35%
        (9, 0) => 967140655691703393452032,  // 10%
        (9, 1) => 1934281311383406786904064,  // 20%
        (9, 2) => 2417851639229258349412352,  // 25%
        (9, 3) => 2901421967075109911920640,  // 30%
        (9, 4) => 3094850098213450751672320,  // 32%
        (9, 5) => 3384992294920961474428928,  // 35%
        _ => 0,
    }
}

fn stop_chance_exec(left: u8, room: u8, inner: bool) -> (r: i128)
    ensures
        r as int == stop_chance(left, room, inner),
{
    match (left, room, inner) {
        (1, 2, true) => 5657772628270593708392448,
        (1, 3, true) => 4287656853096881257971712,
        (1, 4, true) => 3602598965510025032761344,
        (1, 5, true) => 3191564002373610376265728,
        (1, 6, true) => 2917541077923168807550976,
        (1, 7, true) => 2721810170546816699858944,
        (1, 8, true) => 2575012134129740694945792,
        (2, 3, true) => 7027888979905058462236672,
        (2, 4, true) => 5657772628270593708392448,
        (2, 5, true) => 4835703278458516698824704,
        (2, 6, true) => 4287656853096881257971712,
        (2, 7, true) => 3896195326574553194299392,
        (2, 8, true) => 3602598965510025032761344,
        (3, 4, true) => 7712946867491914687447040,
        (3, 5, true) => 6479842554543423021383680,
        (3, 6, true) => 5657772628270593708392448,
        (3, 7, true) => 5070579906141537385316352,
        (3, 8, true) => 4630185796890309370576896,
        (4, 5, true) => 8123981254167577040519168,
        (4, 6, true) => 7027888979905058462236672,
        (4, 7, true) => 6244965350399650031468544,
        (4, 8, true) => 5657772628270593708392448,
        (5, 6, true) => 8398004178618018609233920,
        (5, 7, true) => 7419350794657762677620736,
        (5, 8, true) => 6685359459650878046208000,
        (6, 7, true) => 8593735662455123020349440,
        (6, 8, true) => 7712946867491914687447040,
        (1, 2, false) => 7108483957684600100093952,
        (1, 3, false) => 6221938049188137476816896,
        (1, 4, false) => 5778665094939906165178368,
        (1, 5, false) => 5512701668267418760249344,
        (1, 6, false) => 5335392140691674853539840,
        (1, 7, false) => 5208743136949860409802752,
        (1, 8, false) => 5113755663567559197720576,
        (2, 3, false) => 7995029289720310419947520,
        (2, 4, false) => 7108483957684600100093952,
        (2, 5, false) => 6576556527878872986812416,
        (2, 6, false) => 6221938049188137476816896,
        (2, 7, false) => 5968639465243756285919232,
        (2, 8, false) => 5778665094939906165178368,
        (3, 4, false) => 8438302243968541731586048,
        (3, 5, false) => 7640410811029574909952000,
        (3, 6, false) => 7108483957684600100093952,
        (3, 7, false) => 6728535217076899858612224,
        (3, 8, false) => 6443574526312253132636160,
        (4, 5, false) => 8704265670641029136515072,
        (4, 6, false) => 7995029289720310419947520,
        (4, 7, false) => 7488432121831548038152192,
        (4, 8, false) => 7108483957684600100093952,
        (5, 6, false) => 8881574621756020739801088,
        (5, 7, false) => 8248327873664691610845184,
        (5, 8, false) => 7773392812596194764128256,
        (6, 7, false) => 9008224201958587486961664,
        (6, 8, false) => 8438302243968541731586048,
        _ => 0,
    }
}

fn main_seq_shape_exec(birth: bool, spectr: SpectrType, d: i128) -> (r: (usize, u8))
    ensures
        r.0 as int == main_seq_shape(birth, spectr, d as int).0,
        r.1 as int == main_seq_shape(birth, spectr, d as int).1,
        1 <= r.0 <= 6,
        r.1 <= 9,
{
    if birth {
        return (4, 0);
    }
    match spectr {
        SpectrType::M => {
            let n: usize = if d >= PCT80 { 4 } else if d >= PCT30 { 3 } else if d >= PCT10 { 2 } else { 1 };
            (n, if n <= 3 { 1 } else { 2 })
        },
        SpectrType::K => {
            let n: usize = if d >= PCT95 { 5 } else if d >= PCT70 { 4 } else if d >= PCT20 { 3 } else if d >= PCT10 { 2 } else { 1 };
            (n, if n <= 3 { 3 } else { 4 })
        },
        SpectrType::G => {
            let n: usize = if d >= PCT90 { 5 } else if d >= PCT40 { 4 } else { 3 };
            (n, if n <= 3 { 3 } else { 5 })
        },
        SpectrType::F => {
            let n: usize = if d >= PCT80 { 5 } else if d >= PCT35 { 4 } else { 3 };
            (n, if n <= 3 { 1 } else { 6 })
        },
        SpectrType::A => {
            let n: usize = if d >= PCT75 { 5 } else if d >= PCT30 { 4 } else { 3 };
            (n, if n <= 3 { 1 } else { 7 })
        },
        SpectrType::B => {
            let n: usize = if d >= PCT75 { 6 } else if d >= PCT30 { 5 } else { 4 };
            (n, if n <= 3 { 1 } else { 8 })
        },
        SpectrType::O => (if d >= HALF { 6 } else { 5 }, 9),
        SpectrType::X => (1, 0),
    }
}

/// Draws the two seeds of a planet and returns its slot.
fn make_slot(rng: &mut DspRandom, index: usize, orbit: usize, gas: bool, around: Option<usize>) -> (r: PlanetSlot)
    requires
        old(rng).wf(),
    ensures
        final(rng).wf(),
        final(rng)@ == after_made(old(rng)@),
        r == made(index as int, orbit as int, gas, around, old(rng)@),
{
    proof {
        reveal(seed_of);
    }
    let info_seed = rng.next_seed();
    let gen_seed = rng.next_seed();
    PlanetSlot { index, orbit_index: orbit, gas_giant: gas, orbit_around: around, info_seed, gen_seed }
}

/// Grows the orbit slot of a planet orbiting the star.
fn grow_slot_exec(rng: &mut DspRandom, slot: usize, left: usize, birth: bool) -> (r: (usize, bool))
    requires
        old(rng).wf(),
        1 <= slot <= 20,
        1 <= left <= 6,
    ensures
        final(rng).wf(),
        final(rng)@ == grow_slot(old(rng)@, slot as int, left as int, birth).0,
        r.0 as int == grow_slot(old(rng)@, slot as int, left as int, birth).1,
        r.1 == grow_slot(old(rng)@, slot as int, left as int, birth).2,
        1 <= r.0 <= 20,
        r.0 <= if slot <= 8 { 8 } else { slot },
{
    let mut s = slot;
    loop
        invariant
            rng.wf(),
            1 <= s <= 20,
            slot <= 8 ==> s <= 8,
            slot > 8 ==> s == slot,
            1 <= left <= 6,
            grow_slot(rng@, s as int, left as int, birth) == grow_slot(old(rng)@, slot as int, left as int, birth),
        decreases 9 - s,
    {
        if birth && s == 3 {
            return (s, false);
        }
        if 9 - (s as i64) > left as i64 {
            let chance = stop_chance_exec(left as u8, (9 - s) as u8, s <= 3);
            let d = rng.next_draw();
            if d < chance {
                return (s, true);
            }
            s = s + 1;
        } else {
            return (s, true);
        }
    }
}

/// Slots of the `count` planets of a main-sequence star, with gas-giant
/// chances from row `row` of the table.
#[verifier::rlimit(50)]
fn main_seq_slots(rng: &mut DspRandom, count: usize, row: u8, is_birth: bool) -> (out: Vec<PlanetSlot>)
    requires
        old(rng).wf(),
        1 <= count <= 6,
        row <= 9,
    ensures
        out@ == main_seq_from(
            (SlotRun { rng: old(rng)@, direct: 0, moons: 0, around: 0, slot: 1 }),
            0,
            count as int,
            row as int,
            is_birth,
        ),
{
    let mut out: Vec<PlanetSlot> = Vec::new();
    let ghost run0 = SlotRun { rng: rng@, direct: 0, moons: 0, around: 0, slot: 1 };
    let mut direct: usize = 0;
    let mut moons: usize = 0;
    let mut around: usize = 0;
    let mut slot: usize = 1;
    let mut index: usize = 0;
    while index < count
        invariant
            rng.wf(),
            1 <= count <= 6,
            row <= 9,
            index <= count,
            direct <= index,
            moons <= index,
            around <= index,
            1 <= slot <= 9 + index,
            out@ + main_seq_from(
                SlotRun { rng: rng@, direct: direct as int, moons: moons as int, around: around as int, slot: slot as int },
                index as int,
                count as int,
                row as int,
                is_birth,
            ) == main_seq_from(run0, 0, count as int, row as int, is_birth),
        decreases count - index,
    {
        let ghost run = SlotRun { rng: rng@, direct: direct as int, moons: moons as int, around: around as int, slot: slot as int };
        let ghost out0 = out@;
        let info_seed = rng.next_seed();
        let gen_seed = rng.next_seed();
        proof {
            reveal(seed_of);
            assert(info_seed == seed_of(run.rng));
            assert(gen_seed == seed_of(step(run.rng)));
        }
        let gas_draw = rng.next_draw();
        let detach_draw = rng.next_draw();
        if around == 0 {
            direct = direct + 1;
            let drawn_gas = index + 1 < count && gas_draw < gas_chance_exec(row, index as u8);
            let slot0 = if drawn_gas && slot < 3 { 3 } else { slot };
            let grown = grow_slot_exec(rng, slot0, count - index, is_birth);
            let gas = drawn_gas || !grown.1;
            if gas {
                moons = 0;
                around = direct;
            }
            if moons >= 1 && detach_draw < PCT80 {
                moons = 0;
                around = 0;
            }
            out.push(PlanetSlot {
                index,
                orbit_index: grown.0,
                gas_giant: gas,
                orbit_around: None,
                info_seed,
                gen_seed,
            });
            slot = grown.0 + 1;
        } else {
            moons = moons + 1;
            out.push(PlanetSlot {
                index,
                orbit_index: moons,
                gas_giant: false,
                orbit_around: Some(around - 1),
                info_seed,
                gen_seed,
            });
            if detach_draw < PCT80 {
                moons = 0;
                around = 0;
            }
            slot = slot + 1;
        }
        proof {
            assert(out@ == out0.push(out@.last()));
            assert(out0 + main_seq_from(run, index as int, count as int, row as int, is_birth)
                == out@ + main_seq_from(
                    SlotRun { rng: rng@, direct: direct as int, moons: moons as int, around: around as int, slot: slot as int },
                    index + 1,
                    count as int,
                    row as int,
                    is_birth,
                )) by {
                let tail = main_seq_from(
                    SlotRun { rng: rng@, direct: direct as int, moons: moons as int, around: around as int, slot: slot as int },
                    index + 1,
                    count as int,
                    row as int,
                    is_birth,
                );
                let st = main_seq_step(run, index as int, count as int, row as int, is_birth);
                assert(st.0 == out@.last());
                assert(st.1 == (SlotRun { rng: rng@, direct: direct as int, moons: moons as int, around: around as int, slot: slot as int }));
                assert(main_seq_from(run, index as int, count as int, row as int, is_birth) == seq![out@.last()] + tail);
                assert(out0 + (seq![out@.last()] + tail) =~= out@ + tail);
            }
        }
        index = index + 1;
    }
    assert(out@ + main_seq_from(
        SlotRun { rng: rng@, direct: direct as int, moons: moons as int, around: around as int, slot: slot as int },
        index as int,
        count as int,
        row as int,
        is_birth,
    ) =~= out@);
    out
}

/// Slots of the planets of a star that is not on the main sequence.
#[verifier::rlimit(50)]
fn fixed_slots(rng: &mut DspRandom, star_type: StarType, d1: i128, d2: i128, shift: usize) -> (out: Vec<PlanetSlot>)
    requires
        old(rng).wf(),
        shift <= 1,
    ensures
        out@ == fixed_layout(star_type, d1 as int, d2 as int, shift as int, old(rng)@),
{
    let mut out: Vec<PlanetSlot> = Vec::new();
    match star_type {
        StarType::BlackHole | StarType::NeutronStar => {
            out.push(make_slot(rng, 0, 3, false, None));
        },
        StarType::WhiteDwarf => {
            if d1 < PCT70 {
                out.push(make_slot(rng, 0, 3, false, None));
            } else if d2 < PCT30 {
                out.push(make_slot(rng, 0, 3, false, None));
                out.push(make_slot(rng, 1, 4, false, None));
            } else {
                out.push(make_slot(rng, 0, 4, true, None));
                out.push(make_slot(rng, 1, 1, false, Some(0)));
            }
        },
        StarType::GiantStar => {
            if d1 < PCT30 {
                out.push(make_slot(rng, 0, 2 + shift, false, None));
            } else if d1 < PCT80 {
                if d2 < PCT25 {
                    out.push(make_slot(rng, 0, 2 + shift, false, None));
                    out.push(make_slot(rng, 1, 3 + shift, false, None));
                } else {
                    out.push(make_slot(rng, 0, 3, true, None));
                    out.push(make_slot(rng, 1, 1, false, Some(0)));
                }
            } else if d2 < PCT15 {
                out.push(make_slot(rng, 0, 2 + shift, false, None));
                out.push(make_slot(rng, 1, 3 + shift, false, None));
                out.push(make_slot(rng, 2, 4 + shift, false, None));
            } else if d2 < PCT75 {
                out.push(make_slot(rng, 0, 2 + shift, false, None));
                out.push(make_slot(rng, 1, 4, true, None));
                out.push(make_slot(rng, 2, 1, false, Some(1)));
            } else {
                out.push(make_slot(rng, 0, 3 + shift, true, None));
                out.push(make_slot(rng, 1, 1, false, Some(0)));
                out.push(make_slot(rng, 2, 2, false, Some(0)));
            }
        },
        StarType::MainSeqStar => {
            out.push(make_slot(rng, 0, 3, false, None));
        },
    }
    assert(out@ =~= fixed_layout(star_type, d1 as int, d2 as int, shift as int, old(rng)@));
    out
}

/// The orbit slots of the planets of a star, drawn from the generator
/// seeded with `planets_seed`: one planet in slot 3 for a black hole or a
/// neutron star; one to three for a white dwarf or a giant, with a gas giant
/// and its satellites in some cases; for a main-sequence star, a count and a
/// chance of gas giants by class, slots that grow by chance, and satellites
/// that stay with the last gas giant until a draw detaches them.
pub fn planet_slots(star_type: StarType, spectr: SpectrType, is_birth: bool, planets_seed: i32) -> (r: Vec<PlanetSlot>)
    requires
        planets_seed != i32::MIN,
    ensures
        r@ == planet_layout(star_type, spectr, is_birth, planets_seed),
{
    let mut rng = DspRandom::new(planets_seed);
    let d1 = rng.next_draw();
    let d2 = rng.next_draw();
    let d3 = rng.next_draw();
    let shift: usize = if d3 > HALF { 1 } else { 0 };
    rng.next_draw();
    rng.next_draw();
    rng.next_draw();
    rng.next_draw();
    if star_type == StarType::MainSeqStar {
        let shape = main_seq_shape_exec(is_birth, spectr, d1);
        main_seq_slots(&mut rng, shape.0, shape.1, is_birth)
    } else {
        fixed_slots(&mut rng, star_type, d1, d2, shift)
    }
}

/// Shape of the slots of planets `index..count` of a main-sequence star.
proof fn lemma_main_seq_shape(run: SlotRun, index: int, count: int, row: int, birth: bool)
    requires
        0 <= index <= count <= 6,
        0 <= run.around <= index,
        0 <= run.direct <= index,
    ensures
        main_seq_from(run, index, count, row, birth).len() == count - index,
        forall|k: int|
            0 <= k < count - index ==> (#[trigger] main_seq_from(run, index, count, row, birth)[k]).index
                == index + k,
        forall|k: int|
            0 <= k < count - index && (#[trigger] main_seq_from(run, index, count, row, birth)[k]).orbit_around
                is Some ==> main_seq_from(run, index, count, row, birth)[k].orbit_around->0 < index + k,
    decreases count - index,
{
    if index < count {
        let st = main_seq_step(run, index, count, row, birth);
        lemma_main_seq_shape(st.1, index + 1, count, row, birth);
        let rest = main_seq_from(st.1, index + 1, count, row, birth);
        assert(main_seq_from(run, index, count, row, birth) == seq![st.0] + rest);
        assert forall|k: int| 1 <= k < count - index implies (seq![st.0] + rest)[k] == rest[k - 1] by {}
    }
}

/// Every star has one to six planets, listed by index, and a planet that
/// orbits another planet orbits one listed before it.
pub proof fn lemma_slots_shape(star_type: StarType, spectr: SpectrType, birth: bool, planets_seed: i32)
    ensures
        1 <= planet_layout(star_type, spectr, birth, planets_seed).len() <= 6,
        forall|k: int|
            0 <= k < planet_layout(star_type, spectr, birth, planets_seed).len()
                ==> (#[trigger] planet_layout(star_type, spectr, birth, planets_seed)[k]).index == k,
        forall|k: int|
            0 <= k < planet_layout(star_type, spectr, birth, planets_seed).len()
                && (#[trigger] planet_layout(star_type, spectr, birth, planets_seed)[k]).orbit_around is Some
                ==> planet_layout(star_type, spectr, birth, planets_seed)[k].orbit_around->0 < k,
{
    let r0 = seeded_state(planets_seed);
    let d1 = draw_of(r0);
    let r = step(step(step(step(step(step(step(r0)))))));
    if star_type == StarType::MainSeqStar {
        let shape = main_seq_shape(birth, spectr, d1);
        lemma_main_seq_shape((SlotRun { rng: r, direct: 0, moons: 0, around: 0, slot: 1 }), 0, shape.0, shape.1, birth);
    }
}

/// The slots of a star depend on its kind, class, birth mark and planets
/// seed alone: two layouts made from the same values are equal.
pub proof fn lemma_slots_deterministic(
    star_type: StarType,
    spectr: SpectrType,
    birth: bool,
    planets_seed: i32,
    first: Seq<PlanetSlot>,
    second: Seq<PlanetSlot>,
)
    requires
        first == planet_layout(star_type, spectr, birth, planets_seed),
        second == planet_layout(star_type, spectr, birth, planets_seed),
    ensures
        first == second,
{
}

} // verus!
