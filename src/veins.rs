//! Cluster counts of the resource veins of a rocky planet.
use vstd::prelude::*;
use crate::enums::StarType;
use crate::random::{DspRandom, RngState, step, seeded_state, steps};
use crate::orbits::{draw_of, HALF};

verus! {

/// Forty-five percent, as a numerator over `2^83`.
pub const PCT45: i128 = 4352132950612665136316416;
/// Sixty-five percent, as a numerator over `2^83`.
pub const PCT65: i128 = 6286414261996071923220480;

/// Number of vein types, `Undefined` included.
pub const VEIN_SLOTS: usize = 15;

/// A rare vein a theme may hold: its type id, the chance that it appears and
/// the chance of each further cluster (numerators over `2^83` of the
/// thresholds the draws are compared with).
#[derive(Debug, Clone, Copy, PartialEq, Eq, Structural)]
pub struct RareVein {
    pub vein: usize,
    pub appear: i128,
    pub grow: i128,
}

/// Clusters added by repeated draws below `t`, at most `k` of them: the state
/// after the draws and the number added.
pub open spec fn add_until(rng: RngState, t: int, k: nat) -> (RngState, int)
    decreases k,
{
    if k == 0 {
        (rng, 0)
    } else if draw_of(rng) >= t {
        (step(rng), 0)
    } else {
        let rest = add_until(step(rng), t, (k - 1) as nat);
        (rest.0, rest.1 + 1)
    }
}

/// Counts after the boosts of the star kind: two slots of two to thirteen
/// extra clusters and one of one to twelve for a white dwarf; one slot of one
/// to twelve for a neutron star or a black hole.
pub open spec fn boosted(rng: RngState, star_type: StarType, c: Seq<int>) -> (RngState, Seq<int>) {
    match star_type {
        StarType::WhiteDwarf => {
            let a = add_until(rng, PCT45 as int, 11);
            let b = add_until(a.0, PCT45 as int, 11);
            let d = add_until(b.0, HALF as int, 11);
            (d.0, c.update(9, c[9] + 2 + a.1).update(10, c[10] + 2 + b.1).update(12, c[12] + 1 + d.1))
        },
        StarType::NeutronStar | StarType::BlackHole => {
            let a = add_until(rng, PCT65 as int, 11);
            (a.0, c.update(14, c[14] + 1 + a.1))
        },
        _ => (rng, c),
    }
}

/// Counts and appearance marks after the rare veins `rares[j..]` are rolled.
pub open spec fn rare_from(rng: RngState, c: Seq<int>, hits: Seq<bool>, rares: Seq<RareVein>, j: int) -> (Seq<int>, Seq<bool>)
    decreases rares.len() - j,
{
    if j >= rares.len() || j < 0 {
        (c, hits)
    } else {
        let v = rares[j].vein as int;
        if draw_of(rng) < rares[j].appear {
            let g = add_until(step(rng), rares[j].grow as int, 11);
            rare_from(g.0, c.update(v, c[v] + 1 + g.1), hits.push(true), rares, j + 1)
        } else {
            rare_from(step(rng), c, hits.push(false), rares, j + 1)
        }
    }
}

/// Cluster counts per vein type of a rocky planet made from `seed`, from
/// the theme's base counts `spots` (slot `k` for type `k`), and whether each
/// rare vein appeared.
pub open spec fn vein_groups_spec(seed: i32, star_type: StarType, spots: Seq<int>, rares: Seq<RareVein>) -> (Seq<int>, Seq<bool>) {
    let r0 = steps(seeded_state(seed), 6);
    let b = boosted(r0, star_type, spots);
    rare_from(b.0, b.1, Seq::empty(), rares, 0)
}

/// Adds clusters while draws fall below `t`, at most eleven.
fn add_until_exec(rng: &mut DspRandom, t: i128) -> (r: i64)
    requires
        old(rng).wf(),
    ensures
        final(rng).wf(),
        final(rng)@ == add_until(old(rng)@, t as int, 11).0,
        r as int == add_until(old(rng)@, t as int, 11).1,
        0 <= r <= 11,
{
    let mut n: i64 = 0;
    let mut k: usize = 11;
    while k > 0
        invariant
            k <= 11,
            rng.wf(),
            0 <= n <= 11 - k,
            add_until(rng@, t as int, k as nat).0 == add_until(old(rng)@, t as int, 11).0,
            n + add_until(rng@, t as int, k as nat).1 == add_until(old(rng)@, t as int, 11).1,
        decreases k,
    {
        let d = rng.next_draw();
        if d >= t {
            return n;
        }
        n = n + 1;
        k = k - 1;
    }
    n
}

/// Cluster counts per vein type of a rocky planet made from `seed`: the
/// theme's base counts (`spots`, one per type), boosted for white dwarfs,
/// neutron stars and black holes, then one roll per rare vein of the theme,
/// each of which may add clusters. Also returns whether each rare vein
/// appeared.
pub fn vein_groups(seed: i32, star_type: StarType, spots: &Vec<i32>, rares: &Vec<RareVein>) -> (r: (Vec<i64>, Vec<bool>))
    requires
        seed != i32::MIN,
        spots@.len() == VEIN_SLOTS,
        rares@.len() < 0x10_0000,
        forall|j: int| 0 <= j < rares@.len() ==> #[trigger] rares@[j].vein < VEIN_SLOTS,
    ensures
        r.0@.len() == VEIN_SLOTS,
        r.0@.map_values(|x: i64| x as int) == vein_groups_spec(
            seed,
            star_type,
            spots@.map_values(|x: i32| x as int),
            rares@,
        ).0,
        r.1@ == vein_groups_spec(seed, star_type, spots@.map_values(|x: i32| x as int), rares@).1,
{
    let mut rng = DspRandom::new(seed);
    crate::random::take_draws(&mut rng, 6);
    let mut c: Vec<i64> = Vec::new();
    let mut k: usize = 0;
    while k < VEIN_SLOTS
        invariant
            0 <= k <= VEIN_SLOTS,
            spots@.len() == VEIN_SLOTS,
            c@.len() == k,
            forall|i: int| 0 <= i < k ==> #[trigger] c@[i] as int == spots@[i] as int,
        decreases VEIN_SLOTS - k,
    {
        c.push(spots[k] as i64);
        k += 1;
    }
    let ghost base = spots@.map_values(|x: i32| x as int);
    assert(c@.map_values(|x: i64| x as int) =~= base);
    let ghost r0 = rng@;
    match star_type {
        StarType::WhiteDwarf => {
            let a = add_until_exec(&mut rng, PCT45);
            c.set(9, c[9] + 2 + a);
            let b = add_until_exec(&mut rng, PCT45);
            c.set(10, c[10] + 2 + b);
            let d = add_until_exec(&mut rng, HALF);
            c.set(12, c[12] + 1 + d);
        },
        StarType::NeutronStar | StarType::BlackHole => {
            let a = add_until_exec(&mut rng, PCT65);
            c.set(14, c[14] + 1 + a);
        },
        _ => {},
    }
    assert(c@.map_values(|x: i64| x as int) =~= boosted(r0, star_type, base).1);
    assert(rng@ == boosted(r0, star_type, base).0);
    let mut hits: Vec<bool> = Vec::new();
    let mut j: usize = 0;
    while j < rares.len()
        invariant
            0 <= j <= rares@.len(),
            rares@.len() < 0x10_0000,
            forall|i: int| 0 <= i < rares@.len() ==> #[trigger] rares@[i].vein < VEIN_SLOTS,
            rng.wf(),
            c@.len() == VEIN_SLOTS,
            forall|i: int| 0 <= i < VEIN_SLOTS ==> -0x8000_0000 - 12 * j <= #[trigger] c@[i] <= 0x8000_0000 + 16 + 12 * j,
            hits@.len() == j,
            rare_from(rng@, c@.map_values(|x: i64| x as int), hits@, rares@, j as int)
                == rare_from(boosted(r0, star_type, base).0, boosted(r0, star_type, base).1, Seq::empty(), rares@, 0),
        decreases rares@.len() - j,
    {
        let rv = rares[j];
        let ghost rs = rng@;
        let ghost cs = c@;
        let d = rng.next_draw();
        if d < rv.appear {
            let g = add_until_exec(&mut rng, rv.grow);
            c.set(rv.vein, c[rv.vein] + 1 + g);
            hits.push(true);
            proof {
                assert(c@.map_values(|x: i64| x as int) =~= cs.map_values(|x: i64| x as int).update(
                    rv.vein as int,
                    cs[rv.vein as int] + 1 + g,
                ));
            }
        } else {
            hits.push(false);
        }
        j += 1;
    }
    (c, hits)
}

} // verus!
