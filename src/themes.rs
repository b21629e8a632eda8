//! Choice of a planet's theme among the catalog.
use vstd::prelude::*;
use crate::enums::{PlanetType, ThemeDistribute};
use crate::double::scaled_trunc;

verus! {

/// What theme selection reads of a catalog entry.
#[derive(Debug, Clone, Copy, PartialEq, Eq, Structural)]
pub struct ThemeInfo {
    pub id: i32,
    pub planet_type: PlanetType,
    pub distribute: ThemeDistribute,
}

/// The planet a theme is chosen for.
#[derive(Debug, Clone, Copy, PartialEq, Eq, Structural)]
pub struct ThemeRequest {
    /// Planet type before any theme.
    pub planet_type: PlanetType,
    /// The planet's star is the birth star.
    pub birth_star: bool,
    /// The theme draw of the planet, as its numerator over `2^83`.
    pub draw: i128,
}

/// Whether entry `t` of the catalog is unused.
pub open spec fn unused(t: ThemeInfo, used: Seq<i32>) -> bool {
    !used.contains(t.id)
}

/// Whether entry `t` is a candidate of tier `tier` (0: matching themes; 1:
/// unused desert themes; 2: any desert theme), given whether its temperature
/// suits the planet (`warm_ok`).
pub open spec fn in_tier(tier: int, t: ThemeInfo, used: Seq<i32>, req: ThemeRequest, warm_ok: bool) -> bool {
    if tier == 0 {
        unused(t, used) && if req.birth_star && req.planet_type == PlanetType::Ocean {
            t.distribute == ThemeDistribute::Birth
        } else {
            t.planet_type == req.planet_type && warm_ok && if req.birth_star {
                t.distribute == ThemeDistribute::Default
            } else {
                t.distribute == ThemeDistribute::Default || t.distribute == ThemeDistribute::Interstellar
            }
        }
    } else if tier == 1 {
        unused(t, used) && t.planet_type == PlanetType::Desert
    } else {
        t.planet_type == PlanetType::Desert
    }
}

/// Catalog indices below `n` of the candidates of tier `tier`, in order.
pub open spec fn tier_indices(
    tier: int,
    cat: Seq<ThemeInfo>,
    used: Seq<i32>,
    req: ThemeRequest,
    ok: Seq<bool>,
    n: int,
) -> Seq<usize>
    decreases n,
{
    if n <= 0 {
        Seq::empty()
    } else if in_tier(tier, cat[n - 1], used, req, ok[n - 1]) {
        tier_indices(tier, cat, used, req, ok, n - 1).push((n - 1) as usize)
    } else {
        tier_indices(tier, cat, used, req, ok, n - 1)
    }
}

/// The candidates: those of the first tier that has any.
pub open spec fn candidates(cat: Seq<ThemeInfo>, used: Seq<i32>, req: ThemeRequest, ok: Seq<bool>) -> Seq<usize> {
    let n = cat.len() as int;
    if tier_indices(0, cat, used, req, ok, n).len() > 0 {
        tier_indices(0, cat, used, req, ok, n)
    } else if tier_indices(1, cat, used, req, ok, n).len() > 0 {
        tier_indices(1, cat, used, req, ok, n)
    } else {
        tier_indices(2, cat, used, req, ok, n)
    }
}

/// Position among `count` candidates picked by `draw`: the integer part of
/// `draw * count`, modulo `count`.
pub open spec fn pick_position(draw: int, count: int) -> int {
    let t = scaled_trunc(draw, count);
    (if t < 0 { 0 } else { t }) % count
}

/// Catalog index of the chosen theme.
pub open spec fn chosen_theme(cat: Seq<ThemeInfo>, used: Seq<i32>, req: ThemeRequest, ok: Seq<bool>) -> int {
    let c = candidates(cat, used, req, ok);
    c[pick_position(req.draw as int, c.len() as int)] as int
}

/// The catalog holds a desert theme.
pub open spec fn has_desert(cat: Seq<ThemeInfo>) -> bool {
    exists|k: int| 0 <= k < cat.len() && #[trigger] cat[k].planet_type == PlanetType::Desert
}

proof fn lemma_tier_indices_props(
    tier: int,
    cat: Seq<ThemeInfo>,
    used: Seq<i32>,
    req: ThemeRequest,
    ok: Seq<bool>,
    n: int,
)
    requires
        0 <= n <= cat.len(),
        n <= ok.len(),
        cat.len() <= usize::MAX,
    ensures
        tier_indices(tier, cat, used, req, ok, n).len() <= n,
        forall|k: int|
            0 <= k < tier_indices(tier, cat, used, req, ok, n).len()
                ==> #[trigger] tier_indices(tier, cat, used, req, ok, n)[k] < n,
        tier == 2 && (exists|k: int| 0 <= k < n && #[trigger] cat[k].planet_type == PlanetType::Desert)
            ==> tier_indices(tier, cat, used, req, ok, n).len() > 0,
    decreases n,
{
    if n > 0 {
        lemma_tier_indices_props(tier, cat, used, req, ok, n - 1);
        let prev = tier_indices(tier, cat, used, req, ok, n - 1);
        assert(forall|k: int| 0 <= k < prev.len() ==> prev[k] < n - 1);
        assert(((n - 1) as usize) as int == n - 1);
        if tier == 2 && (exists|k: int| 0 <= k < n && #[trigger] cat[k].planet_type == PlanetType::Desert) {
            if cat[n - 1].planet_type != PlanetType::Desert {
                let k = choose|k: int| 0 <= k < n && #[trigger] cat[k].planet_type == PlanetType::Desert;
                assert(k < n - 1);
            }
        }
    }
}

/// Catalog indices of the candidates of tier `tier`, in order.
fn collect_tier(tier: u8, cat: &Vec<ThemeInfo>, used: &Vec<i32>, req: ThemeRequest, ok: &Vec<bool>) -> (r: Vec<usize>)
    requires
        ok@.len() == cat@.len(),
    ensures
        r@ == tier_indices(tier as int, cat@, used@, req, ok@, cat@.len() as int),
{
    let mut r: Vec<usize> = Vec::new();
    let mut k: usize = 0;
    while k < cat.len()
        invariant
            0 <= k <= cat@.len(),
            ok@.len() == cat@.len(),
            r@ == tier_indices(tier as int, cat@, used@, req, ok@, k as int),
        decreases cat@.len() - k,
    {
        let t = cat[k];
        let is_unused = !crate::rules::contains_i32(used, t.id);
        let hit = if tier == 0 {
            is_unused && if req.birth_star && req.planet_type == PlanetType::Ocean {
                t.distribute == ThemeDistribute::Birth
            } else {
                t.planet_type == req.planet_type && ok[k] && if req.birth_star {
                    t.distribute == ThemeDistribute::Default
                } else {
                    t.distribute == ThemeDistribute::Default || t.distribute
                        == ThemeDistribute::Interstellar
                }
            }
        } else if tier == 1 {
            is_unused && t.planet_type == PlanetType::Desert
        } else {
            t.planet_type == PlanetType::Desert
        };
        if hit {
            r.push(k);
        }
        k += 1;
    }
    r
}

/// Chooses the theme of a planet: among the unused themes of the planet's
/// type whose temperature suits it (`warm_ok`, per catalog entry) and whose
/// distribution class fits the star (a birth class for the birth planet,
/// default at the birth star, default or interstellar elsewhere); failing
/// that among unused desert themes; failing that among all desert themes.
/// The draw picks among the candidates, and the chosen id is marked used.
/// Returns the catalog index of the theme.
pub fn choose_theme(cat: &Vec<ThemeInfo>, used: &mut Vec<i32>, req: ThemeRequest, warm_ok: &Vec<bool>) -> (r: usize)
    requires
        warm_ok@.len() == cat@.len(),
        cat@.len() < 0x8000_0000,
        has_desert(cat@),
        -0x40_0000_0000_0000_0000_0000 <= req.draw <= 0x40_0000_0000_0000_0000_0000,
    ensures
        r as int == chosen_theme(cat@, old(used)@, req, warm_ok@),
        r < cat@.len(),
        final(used)@ == old(used)@.push(cat@[r as int].id),
{
    proof {
        lemma_tier_indices_props(0, cat@, used@, req, warm_ok@, cat@.len() as int);
        lemma_tier_indices_props(1, cat@, used@, req, warm_ok@, cat@.len() as int);
        lemma_tier_indices_props(2, cat@, used@, req, warm_ok@, cat@.len() as int);
    }
    let mut c = collect_tier(0, cat, used, req, warm_ok);
    if c.len() == 0 {
        c = collect_tier(1, cat, used, req, warm_ok);
    }
    if c.len() == 0 {
        c = collect_tier(2, cat, used, req, warm_ok);
    }
    let count = c.len();
    let t = crate::double::scale_draw(req.draw, count as i32);
    let t0: i128 = if t < 0 { 0 } else { t };
    let pos = (t0 % count as i128) as usize;
    let chosen = c[pos];
    used.push(cat[chosen].id);
    chosen
}

} // verus!
