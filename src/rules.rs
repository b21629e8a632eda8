//! Rules over a galaxy: predicates on stars, their combinators, ordering by
//! cost, and short-circuit evaluation against an [`Evaluaton`].
use vstd::prelude::*;
use crate::enums::{SpectrType, StarType};
use crate::evaluation::{
    Evaluaton, all_known, confirm_all, reject_all_but, accepted_indices, kept_indices,
};

verus! {

/// What the rules read of a planet.
#[derive(Debug, Clone, Copy, PartialEq, Eq, Structural)]
pub struct PlanetFacts {
    pub theme_id: i32,
    pub water_item_id: i32,
    pub gas_giant: bool,
    /// The planet orbits another planet.
    pub satellite: bool,
    pub tidal_locked: bool,
    /// The theme of the planet has a negative temperature.
    pub cold_theme: bool,
}

/// What the rules read of a star: its kind, its class, its planets, and the
/// verdicts of the predicates computed outside the library.
#[derive(Debug, Clone)]
pub struct StarFacts {
    pub star_type: StarType,
    pub spectr: SpectrType,
    pub planets: Vec<PlanetFacts>,
    pub flags: Vec<bool>,
}

/// The stars of a galaxy as the rules see them, with a mark per star of
/// whether its planet, theme and vein data has been used (and so computed).
pub struct Galaxy {
    seed: i32,
    stars: Vec<StarFacts>,
    safe: Vec<bool>,
}

/// A comparison of a count against integer bounds.
#[derive(Debug, Clone, Copy, PartialEq, Eq, Structural)]
pub enum Condition {
    Eq(i64),
    Neq(i64),
    Lt(i64),
    Lte(i64),
    Gt(i64),
    Gte(i64),
    Between(i64, i64),
    NotBetween(i64, i64),
}

pub open spec fn condition_holds(c: Condition, v: int) -> bool {
    match c {
        Condition::Eq(f) => v == f,
        Condition::Neq(f) => v != f,
        Condition::Lt(f) => v < f,
        Condition::Lte(f) => v <= f,
        Condition::Gt(f) => v > f,
        Condition::Gte(f) => v >= f,
        Condition::Between(a, b) => a <= v && v <= b,
        Condition::NotBetween(a, b) => a > v || v > b,
    }
}

impl Condition {
    /// Whether a count meets the condition.
    pub fn eval_count(&self, count: usize) -> (r: bool)
        ensures
            r == condition_holds(*self, count as int),
    {
        let v: i128 = count as i128;
        match self {
            Condition::Eq(f) => v == *f as i128,
            Condition::Neq(f) => v != *f as i128,
            Condition::Lt(f) => v < *f as i128,
            Condition::Lte(f) => v <= *f as i128,
            Condition::Gt(f) => v > *f as i128,
            Condition::Gte(f) => v >= *f as i128,
            Condition::Between(a, b) => *a as i128 <= v && v <= *b as i128,
            Condition::NotBetween(a, b) => *a as i128 > v || v > *b as i128,
        }
    }

    pub fn eval(&self, value: i64) -> (r: bool)
        ensures
            r == condition_holds(*self, value as int),
    {
        match self {
            Condition::Eq(f) => value == *f,
            Condition::Neq(f) => value != *f,
            Condition::Lt(f) => value < *f,
            Condition::Lte(f) => value <= *f,
            Condition::Gt(f) => value > *f,
            Condition::Gte(f) => value >= *f,
            Condition::Between(a, b) => *a <= value && value <= *b,
            Condition::NotBetween(a, b) => *a > value || value > *b,
        }
    }
}

/// The birth star.
#[derive(Debug, Clone, Copy, PartialEq, Eq, Structural)]
pub struct RuleBirth {}

/// Stars of one of the given kinds.
#[derive(Debug, Clone)]
pub struct RuleStarType {
    pub star_type: Vec<StarType>,
}

/// Stars of one of the given spectral classes.
#[derive(Debug, Clone)]
pub struct RuleSpectr {
    pub spectr: Vec<SpectrType>,
}

/// Stars with a planet whose theme is one of the given ids.
#[derive(Debug, Clone)]
pub struct RuleThemeId {
    pub theme_ids: Vec<i32>,
}

/// Stars with a planet whose sea holds the given item.
#[derive(Debug, Clone, Copy, PartialEq, Eq, Structural)]
pub struct RuleOceanType {
    pub ocean_type: i32,
}

/// Stars whose number of planets meets the condition.
#[derive(Debug, Clone, Copy, PartialEq, Eq, Structural)]
pub struct RulePlanetCount {
    pub condition: Condition,
}

/// Stars whose number of satellites meets the condition.
#[derive(Debug, Clone, Copy, PartialEq, Eq, Structural)]
pub struct RuleSatelliteCount {
    pub condition: Condition,
}

/// Stars whose number of tidally locked planets meets the condition.
#[derive(Debug, Clone, Copy, PartialEq, Eq, Structural)]
pub struct RuleTidalLockCount {
    pub condition: Condition,
}

/// Stars whose number of gas giants (only those with a cold theme, or only
/// those without, when `ice` is given) meets the condition.
#[derive(Debug, Clone, Copy, PartialEq, Eq, Structural)]
pub struct RuleGasCount {
    pub ice: Option<bool>,
    pub condition: Condition,
}

/// Stars whose verdict for a predicate computed outside the library (slot
/// `flag` of their flags) is true; `priority` is that predicate's cost.
#[derive(Debug, Clone, Copy, PartialEq, Eq, Structural)]
pub struct RuleFlag {
    pub priority: i32,
    pub flag: usize,
}

/// A rule, in declarative form and, once ordered by [`transform_rules`], as
/// it is evaluated.
#[derive(Debug)]
pub enum Rules {
    Composite { rule: Box<Rules>, condition: Condition },
    CompositeAnd { rules: Vec<Rules> },
    CompositeOr { rules: Vec<Rules> },
    And { rules: Vec<Rules> },
    Or { rules: Vec<Rules> },
    Birth(RuleBirth),
    StarType(RuleStarType),
    Spectr(RuleSpectr),
    ThemeId(RuleThemeId),
    OceanType(RuleOceanType),
    PlanetCount(RulePlanetCount),
    SatelliteCount(RuleSatelliteCount),
    TidalLockCount(RuleTidalLockCount),
    GasCount(RuleGasCount),
    Flag(RuleFlag),
}

/// Number of planets of `ps` that satisfy the test of a counting rule.
pub open spec fn count_planets(ps: Seq<PlanetFacts>, kind: int, ice: Option<bool>) -> int
    decreases ps.len(),
{
    if ps.len() == 0 {
        0
    } else {
        let p = ps.last();
        let hit = if kind == 0 {
            p.satellite
        } else if kind == 1 {
            p.tidal_locked
        } else {
            p.gas_giant && (ice.is_none() || p.cold_theme == ice.unwrap())
        };
        count_planets(ps.drop_last(), kind, ice) + if hit {
            1int
        } else {
            0
        }
    }
}

/// Some planet of `ps` has a theme among `ids`.
pub open spec fn has_theme_in(ps: Seq<PlanetFacts>, ids: Seq<i32>) -> bool {
    exists|k: int| 0 <= k < ps.len() && ids.contains(#[trigger] ps[k].theme_id)
}

/// Some planet of `ps` has a sea of item `w`.
pub open spec fn has_water(ps: Seq<PlanetFacts>, w: i32) -> bool {
    exists|k: int| 0 <= k < ps.len() && #[trigger] ps[k].water_item_id == w
}

/// Whether the star-level or planet-level leaf `r` matches star `s`.
pub open spec fn leaf_matches(r: Rules, s: StarFacts) -> bool {
    match r {
        Rules::StarType(x) => x.star_type@.contains(s.star_type),
        Rules::Spectr(x) => x.spectr@.contains(s.spectr),
        Rules::ThemeId(x) => has_theme_in(s.planets@, x.theme_ids@),
        Rules::OceanType(x) => has_water(s.planets@, x.ocean_type),
        Rules::PlanetCount(x) => condition_holds(x.condition, s.planets@.len() as int),
        Rules::SatelliteCount(x) => condition_holds(x.condition, count_planets(s.planets@, 0, None)),
        Rules::TidalLockCount(x) => condition_holds(x.condition, count_planets(s.planets@, 1, None)),
        Rules::GasCount(x) => condition_holds(x.condition, count_planets(s.planets@, 2, x.ice)),
        Rules::Flag(x) => x.flag < s.flags@.len() && s.flags@[x.flag as int],
        _ => false,
    }
}

/// The unknown stars among the first `n` that the leaf `r` matches.
pub open spec fn leaf_indices(r: Rules, g: Seq<StarFacts>, ev: Seq<Option<bool>>, n: int) -> Seq<usize>
    decreases n,
{
    if n <= 0 {
        Seq::empty()
    } else if ev[n - 1].is_none() && leaf_matches(r, g[n - 1]) {
        leaf_indices(r, g, ev, n - 1).push((n - 1) as usize)
    } else {
        leaf_indices(r, g, ev, n - 1)
    }
}

pub open spec fn min(a: int, b: int) -> int {
    if a < b {
        a
    } else {
        b
    }
}

/// The stars that rule `r` returns on galaxy `g` from verdicts `ev`.
pub open spec fn eval_rule(r: Rules, g: Seq<StarFacts>, ev: Seq<Option<bool>>) -> Seq<usize>
    decreases r,
{
    match r {
        Rules::Composite { rule, condition } => {
            if condition_holds(condition, eval_rule(*rule, g, ev).len() as int) {
                seq![0usize]
            } else {
                Seq::empty()
            }
        },
        Rules::CompositeAnd { rules } => {
            if all_nonempty(rules@, g, ev) {
                seq![0usize]
            } else {
                Seq::empty()
            }
        },
        Rules::CompositeOr { rules } => first_nonempty(rules@, g, ev),
        Rules::And { rules } => {
            let e = and_fold(rules@, g, ev);
            kept_indices(e, e.len() as int)
        },
        Rules::Or { rules } => {
            let e = or_fold(rules@, g, ev);
            accepted_indices(e, e.len() as int)
        },
        Rules::Birth(_) => seq![0usize],
        _ => leaf_indices(r, g, ev, min(g.len() as int, ev.len() as int)),
    }
}

/// Every rule of `rs` returns some star.
pub open spec fn all_nonempty(rs: Seq<Rules>, g: Seq<StarFacts>, ev: Seq<Option<bool>>) -> bool
    decreases rs,
{
    if rs.len() == 0 {
        true
    } else {
        eval_rule(rs[0], g, ev).len() > 0 && all_nonempty(rs.subrange(1, rs.len() as int), g, ev)
    }
}

/// What the first rule of `rs` that returns some star returns; empty if none does.
pub open spec fn first_nonempty(rs: Seq<Rules>, g: Seq<StarFacts>, ev: Seq<Option<bool>>) -> Seq<usize>
    decreases rs,
{
    if rs.len() == 0 {
        Seq::empty()
    } else if eval_rule(rs[0], g, ev).len() > 0 {
        eval_rule(rs[0], g, ev)
    } else {
        first_nonempty(rs.subrange(1, rs.len() as int), g, ev)
    }
}

/// The verdicts after narrowing `ev` by each rule of `rs` in turn, stopping
/// once every verdict is known.
pub open spec fn and_fold(rs: Seq<Rules>, g: Seq<StarFacts>, ev: Seq<Option<bool>>) -> Seq<Option<bool>>
    decreases rs,
{
    if rs.len() == 0 {
        ev
    } else {
        let e1 = reject_all_but(ev, eval_rule(rs[0], g, ev));
        if all_known(e1) {
            e1
        } else {
            and_fold(rs.subrange(1, rs.len() as int), g, e1)
        }
    }
}

/// The verdicts after accepting the matches of each rule of `rs` in turn,
/// stopping once every verdict is known.
pub open spec fn or_fold(rs: Seq<Rules>, g: Seq<StarFacts>, ev: Seq<Option<bool>>) -> Seq<Option<bool>>
    decreases rs,
{
    if rs.len() == 0 {
        ev
    } else {
        let e1 = confirm_all(ev, eval_rule(rs[0], g, ev));
        if all_known(e1) {
            e1
        } else {
            or_fold(rs.subrange(1, rs.len() as int), g, e1)
        }
    }
}

/// Cost rank of a rule: cheaper rules have lower priority.
pub open spec fn priority(r: Rules) -> int
    decreases r,
{
    match r {
        Rules::Composite { rule, condition } => priority(*rule),
        Rules::CompositeAnd { rules } => max_priority(rules@),
        Rules::CompositeOr { rules } => max_priority(rules@),
        Rules::And { rules } => max_priority(rules@),
        Rules::Or { rules } => max_priority(rules@),
        Rules::Birth(_) => 10,
        Rules::StarType(_) => 11,
        Rules::Spectr(_) => 21,
        Rules::PlanetCount(_) => 30,
        Rules::SatelliteCount(_) => 31,
        Rules::GasCount(x) => if x.ice.is_some() {
            41
        } else {
            32
        },
        Rules::TidalLockCount(_) => 33,
        Rules::ThemeId(_) => 40,
        Rules::OceanType(_) => 42,
        Rules::Flag(x) => x.priority as int,
    }
}

/// Highest priority of the rules of `rs`; zero when there is none.
pub open spec fn max_priority(rs: Seq<Rules>) -> int
    decreases rs,
{
    if rs.len() == 0 {
        0
    } else if rs.len() == 1 {
        priority(rs[0])
    } else {
        let rest = max_priority(rs.subrange(1, rs.len() as int));
        if priority(rs[0]) >= rest {
            priority(rs[0])
        } else {
            rest
        }
    }
}

/// The rule reads stars only, never their planets.
pub open spec fn star_level(r: Rules) -> bool
    decreases r,
{
    match r {
        Rules::Composite { rule, condition } => star_level(*rule),
        Rules::CompositeAnd { rules } => forall|k: int| 0 <= k < rules@.len() ==> star_level(#[trigger] rules@[k]),
        Rules::CompositeOr { rules } => forall|k: int| 0 <= k < rules@.len() ==> star_level(#[trigger] rules@[k]),
        Rules::And { rules } => forall|k: int| 0 <= k < rules@.len() ==> star_level(#[trigger] rules@[k]),
        Rules::Or { rules } => forall|k: int| 0 <= k < rules@.len() ==> star_level(#[trigger] rules@[k]),
        Rules::Birth(_) | Rules::StarType(_) | Rules::Spectr(_) | Rules::Flag(_) => true,
        _ => false,
    }
}

/// The leaf reads the themes of planets.
pub open spec fn reads_themes(r: Rules) -> bool {
    match r {
        Rules::ThemeId(_) | Rules::OceanType(_) => true,
        Rules::GasCount(x) => x.ice.is_some(),
        _ => false,
    }
}

impl Galaxy {
    pub closed spec fn seed_spec(&self) -> i32 {
        self.seed
    }

    pub closed spec fn stars_spec(&self) -> Seq<StarFacts> {
        self.stars@
    }

    pub fn seed(&self) -> (r: i32)
        ensures
            r == self.seed_spec(),
    {
        self.seed
    }

    /// The stars, in index order.
    pub fn stars(&self) -> (r: &Vec<StarFacts>)
        ensures
            r@ == self.stars_spec(),
    {
        &self.stars
    }

    /// Marks of the stars whose planet data has been used.
    pub closed spec fn safe_marks(&self) -> Seq<bool> {
        self.safe@
    }

    pub closed spec fn wf(&self) -> bool {
        self.safe@.len() == self.stars@.len()
    }

    /// A galaxy of the given stars, none of whose planet data is used yet.
    pub fn new(seed: i32, stars: Vec<StarFacts>) -> (r: Galaxy)
        ensures
            r.wf(),
            r.seed_spec() == seed,
            r.stars_spec() == stars@,
            r.safe_marks() == Seq::new(stars@.len(), |i: int| false),
    {
        let mut safe: Vec<bool> = Vec::new();
        while safe.len() < stars.len()
            invariant
                safe@.len() <= stars@.len(),
                forall|i: int| 0 <= i < safe@.len() ==> !safe@[i],
            decreases stars@.len() - safe@.len(),
        {
            safe.push(false);
        }
        assert(safe@ == Seq::new(stars@.len(), |i: int| false));
        Galaxy { seed, stars, safe }
    }

    /// Whether the planet data of star `index` has been used.
    pub fn is_safe(&self, index: usize) -> (r: bool)
        requires
            self.wf(),
            index < self.stars_spec().len(),
        ensures
            r == self.safe_marks()[index as int],
    {
        self.safe[index]
    }

    fn mark_safe(&mut self, index: usize)
        requires
            old(self).wf(),
            index < old(self).stars@.len(),
        ensures
            final(self).wf(),
            final(self).stars_spec() == old(self).stars_spec(),
            final(self).seed_spec() == old(self).seed_spec(),
            final(self).safe_marks() == old(self).safe_marks().update(index as int, true),
    {
        self.safe.set(index, true);
    }
}

/// Whether `v` holds `x`.
pub fn contains_i32(v: &Vec<i32>, x: i32) -> (r: bool)
    ensures
        r == v@.contains(x),
{
    let mut k: usize = 0;
    while k < v.len()
        invariant
            0 <= k <= v@.len(),
            forall|j: int| 0 <= j < k ==> v@[j] != x,
        decreases v@.len() - k,
    {
        if v[k] == x {
            return true;
        }
        k += 1;
    }
    false
}

fn contains_star_type(v: &Vec<StarType>, x: StarType) -> (r: bool)
    ensures
        r == v@.contains(x),
{
    let mut k: usize = 0;
    while k < v.len()
        invariant
            0 <= k <= v@.len(),
            forall|j: int| 0 <= j < k ==> v@[j] != x,
        decreases v@.len() - k,
    {
        if v[k] == x {
            return true;
        }
        k += 1;
    }
    false
}

fn contains_spectr(v: &Vec<SpectrType>, x: SpectrType) -> (r: bool)
    ensures
        r == v@.contains(x),
{
    let mut k: usize = 0;
    while k < v.len()
        invariant
            0 <= k <= v@.len(),
            forall|j: int| 0 <= j < k ==> v@[j] != x,
        decreases v@.len() - k,
    {
        if v[k] == x {
            return true;
        }
        k += 1;
    }
    false
}

/// Number of planets of `ps` that satisfy the test of a counting rule.
fn count_planets_exec(ps: &Vec<PlanetFacts>, kind: u8, ice: Option<bool>) -> (r: usize)
    ensures
        r as int == count_planets(ps@, kind as int, ice),
{
    let mut n: usize = 0;
    let mut k: usize = 0;
    while k < ps.len()
        invariant
            0 <= k <= ps@.len(),
            n as int == count_planets(ps@.subrange(0, k as int), kind as int, ice),
            n <= k,
        decreases ps@.len() - k,
    {
        let p = ps[k];
        let hit = if kind == 0 {
            p.satellite
        } else if kind == 1 {
            p.tidal_locked
        } else {
            p.gas_giant && match ice {
                None => true,
                Some(c) => p.cold_theme == c,
            }
        };
        proof {
            let s1 = ps@.subrange(0, k as int + 1);
            assert(s1.drop_last() == ps@.subrange(0, k as int));
            assert(s1.last() == p);
        }
        if hit {
            n = n + 1;
        }
        k += 1;
    }
    assert(ps@.subrange(0, ps@.len() as int) == ps@);
    n
}

/// Whether some planet of `ps` has a theme among `ids`.
fn has_theme_in_exec(ps: &Vec<PlanetFacts>, ids: &Vec<i32>) -> (r: bool)
    ensures
        r == has_theme_in(ps@, ids@),
{
    let mut found = false;
    let mut k: usize = 0;
    while k < ps.len()
        invariant
            0 <= k <= ps@.len(),
            found <==> exists|j: int| 0 <= j < k && ids@.contains(#[trigger] ps@[j].theme_id),
        decreases ps@.len() - k,
    {
        if contains_i32(ids, ps[k].theme_id) {
            found = true;
        }
        k += 1;
    }
    found
}

/// Whether some planet of `ps` has a sea of item `w`.
fn has_water_exec(ps: &Vec<PlanetFacts>, w: i32) -> (r: bool)
    ensures
        r == has_water(ps@, w),
{
    let mut found = false;
    let mut k: usize = 0;
    while k < ps.len()
        invariant
            0 <= k <= ps@.len(),
            found <==> exists|j: int| 0 <= j < k && #[trigger] ps@[j].water_item_id == w,
        decreases ps@.len() - k,
    {
        if ps[k].water_item_id == w {
            found = true;
        }
        k += 1;
    }
    found
}

proof fn lemma_leaf_indices_bounded(r: Rules, g: Seq<StarFacts>, ev: Seq<Option<bool>>, n: int)
    requires
        n <= usize::MAX,
    ensures
        forall|k: int| 0 <= k < leaf_indices(r, g, ev, n).len() ==> leaf_indices(r, g, ev, n)[k] < n,
    decreases n,
{
    if n > 0 {
        lemma_leaf_indices_bounded(r, g, ev, n - 1);
        let prev = leaf_indices(r, g, ev, n - 1);
        assert(forall|k: int| 0 <= k < prev.len() ==> prev[k] < n - 1);
        assert(((n - 1) as usize) as int == n - 1);
    }
}

/// Known verdicts past `m` add nothing to the matches of a leaf.
proof fn lemma_leaf_indices_known_tail(r: Rules, g: Seq<StarFacts>, ev: Seq<Option<bool>>, m: int, n: int)
    requires
        0 <= m <= n,
        forall|i: int| m <= i < n ==> #[trigger] ev[i].is_some(),
    ensures
        leaf_indices(r, g, ev, n) == leaf_indices(r, g, ev, m),
    decreases n,
{
    if n > m {
        assert(ev[n - 1].is_some());
        lemma_leaf_indices_known_tail(r, g, ev, m, n - 1);
    }
}

proof fn lemma_kept_bounded(s: Seq<Option<bool>>, n: int)
    requires
        n <= usize::MAX,
    ensures
        forall|k: int| 0 <= k < kept_indices(s, n).len() ==> kept_indices(s, n)[k] < n,
    decreases n,
{
    if n > 0 {
        lemma_kept_bounded(s, n - 1);
        let prev = kept_indices(s, n - 1);
        assert(forall|k: int| 0 <= k < prev.len() ==> prev[k] < n - 1);
        assert(((n - 1) as usize) as int == n - 1);
    }
}

proof fn lemma_accepted_bounded(s: Seq<Option<bool>>, n: int)
    requires
        n <= usize::MAX,
    ensures
        forall|k: int| 0 <= k < accepted_indices(s, n).len() ==> accepted_indices(s, n)[k] < n,
    decreases n,
{
    if n > 0 {
        lemma_accepted_bounded(s, n - 1);
        let prev = accepted_indices(s, n - 1);
        assert(forall|k: int| 0 <= k < prev.len() ==> prev[k] < n - 1);
        assert(((n - 1) as usize) as int == n - 1);
    }
}

impl Rules {
    pub fn get_priority(&self) -> (r: i32)
        ensures
            r as int == priority(*self),
        decreases self,
    {
        match self {
            Rules::Composite { rule, condition } => rule.get_priority(),
            Rules::CompositeAnd { rules } => Self::max_priority_of(rules),
            Rules::CompositeOr { rules } => Self::max_priority_of(rules),
            Rules::And { rules } => Self::max_priority_of(rules),
            Rules::Or { rules } => Self::max_priority_of(rules),
            Rules::Birth(_) => 10,
            Rules::StarType(_) => 11,
            Rules::Spectr(_) => 21,
            Rules::PlanetCount(_) => 30,
            Rules::SatelliteCount(_) => 31,
            Rules::GasCount(x) => if x.ice.is_some() {
                41
            } else {
                32
            },
            Rules::TidalLockCount(_) => 33,
            Rules::ThemeId(_) => 40,
            Rules::OceanType(_) => 42,
            Rules::Flag(x) => x.priority,
        }
    }

    fn max_priority_of(rules: &Vec<Rules>) -> (r: i32)
        ensures
            r as int == max_priority(rules@),
        decreases rules@,
    {
        let n = rules.len();
        if n == 0 {
            return 0;
        }
        let mut k: usize = n - 1;
        let mut best: i32 = rules[k].get_priority();
        assert(rules@.subrange(k as int, n as int).len() == 1);
        while k > 0
            invariant
                0 <= k < n,
                n == rules@.len(),
                best as int == max_priority(rules@.subrange(k as int, n as int)),
            decreases k,
        {
            k = k - 1;
            let p = rules[k].get_priority();
            proof {
                let s = rules@.subrange(k as int, n as int);
                assert(s[0] == rules@[k as int]);
                assert(s.subrange(1, s.len() as int) =~= rules@.subrange(k + 1, n as int));
            }
            if p >= best {
                best = p;
            }
        }
        assert(rules@.subrange(0, n as int) =~= rules@);
        best
    }

    /// The stars that the rule returns on `galaxy` from the verdicts
    /// `evaluation`: for a leaf, the unknown stars it matches; for `And`, the
    /// stars no child rejects; for `Or`, the stars some child accepts; for the
    /// composite rules, star 0 alone when the condition holds and no star
    /// otherwise.
    #[verifier::loop_isolation(false)]
    pub fn evaluate(&self, galaxy: &mut Galaxy, evaluation: &Evaluaton) -> (r: Vec<usize>)
        requires
            old(galaxy).wf(),
            evaluation.wf(),
            evaluation@.len() > 0,
        ensures
            final(galaxy).wf(),
            final(galaxy).stars_spec() == old(galaxy).stars_spec(),
            final(galaxy).seed_spec() == old(galaxy).seed_spec(),
            r@ == eval_rule(*self, old(galaxy).stars_spec(), evaluation@),
            forall|k: int| 0 <= k < r@.len() ==> r@[k] < evaluation@.len(),
            final(galaxy).safe_marks().len() == old(galaxy).safe_marks().len(),
            forall|i: int|
                0 <= i < old(galaxy).safe_marks().len() && #[trigger] old(galaxy).safe_marks()[i]
                    ==> final(galaxy).safe_marks()[i],
            star_level(*self) ==> final(galaxy).safe_marks() == old(galaxy).safe_marks(),
        decreases self,
    {
        let ghost g0 = galaxy.stars@;
        let ghost safe0 = galaxy.safe@;
        match self {
            Rules::Composite { rule, condition } => {
                let res = rule.evaluate(galaxy, evaluation);
                let mut out: Vec<usize> = Vec::new();
                if condition.eval_count(res.len()) {
                    out.push(0);
                }
                out
            },
            Rules::CompositeAnd { rules } => {
                let n = rules.len();
                assert(rules@.subrange(0, n as int) =~= rules@);
                let mut k: usize = 0;
                while k < n
                    invariant
                        0 <= k <= n,
                        n == rules@.len(),
                        evaluation.wf(),
                        evaluation@.len() > 0,
                        galaxy.wf(),
                        galaxy.stars@ == g0,
                        galaxy.seed == old(galaxy).seed,
                        galaxy.safe@.len() == safe0.len(),
                        forall|j: int| 0 <= j < safe0.len() && #[trigger] safe0[j] ==> galaxy.safe@[j],
                        star_level(*self) ==> galaxy.safe@ == safe0,
                        all_nonempty(rules@.subrange(k as int, n as int), g0, evaluation@)
                            == all_nonempty(rules@, g0, evaluation@),
                    decreases n - k,
                {
                    proof {
                        let sub = rules@.subrange(k as int, n as int);
                        assert(sub[0] == rules@[k as int]);
                        assert(sub.subrange(1, sub.len() as int) =~= rules@.subrange(k + 1, n as int));
                        if star_level(*self) {
                            assert(star_level(rules@[k as int]));
                        }
                        assert(decreases_to!(*self => rules@[k as int]));
                    }
                    let res = rules[k].evaluate(galaxy, evaluation);
                    if res.len() == 0 {
                        return res;
                    }
                    k += 1;
                }
                assert(rules@.subrange(0, n as int) =~= rules@);
                let mut out: Vec<usize> = Vec::new();
                out.push(0);
                out
            },
            Rules::CompositeOr { rules } => {
                let n = rules.len();
                assert(rules@.subrange(0, n as int) =~= rules@);
                let mut k: usize = 0;
                while k < n
                    invariant
                        0 <= k <= n,
                        n == rules@.len(),
                        evaluation.wf(),
                        evaluation@.len() > 0,
                        galaxy.wf(),
                        galaxy.stars@ == g0,
                        galaxy.seed == old(galaxy).seed,
                        galaxy.safe@.len() == safe0.len(),
                        forall|j: int| 0 <= j < safe0.len() && #[trigger] safe0[j] ==> galaxy.safe@[j],
                        star_level(*self) ==> galaxy.safe@ == safe0,
                        first_nonempty(rules@.subrange(k as int, n as int), g0, evaluation@)
                            == first_nonempty(rules@, g0, evaluation@),
                    decreases n - k,
                {
                    proof {
                        let sub = rules@.subrange(k as int, n as int);
                        assert(sub[0] == rules@[k as int]);
                        assert(sub.subrange(1, sub.len() as int) =~= rules@.subrange(k + 1, n as int));
                        if star_level(*self) {
                            assert(star_level(rules@[k as int]));
                        }
                        assert(decreases_to!(*self => rules@[k as int]));
                    }
                    let res = rules[k].evaluate(galaxy, evaluation);
                    if res.len() > 0 {
                        return res;
                    }
                    k += 1;
                }
                assert(rules@.subrange(0, n as int) =~= rules@);
                Vec::new()
            },
            Rules::And { rules } => {
                let n = rules.len();
                let mut e = evaluation.clone();
                assert(rules@.subrange(0, n as int) =~= rules@);
                let mut k: usize = 0;
                while k < n
                    invariant
                        0 <= k <= n,
                        n == rules@.len(),
                        e.wf(),
                        e@.len() == evaluation@.len(),
                        evaluation@.len() > 0,
                        galaxy.wf(),
                        galaxy.stars@ == g0,
                        galaxy.seed == old(galaxy).seed,
                        galaxy.safe@.len() == safe0.len(),
                        forall|j: int| 0 <= j < safe0.len() && #[trigger] safe0[j] ==> galaxy.safe@[j],
                        star_level(*self) ==> galaxy.safe@ == safe0,
                        and_fold(rules@.subrange(k as int, n as int), g0, e@)
                            == and_fold(rules@, g0, evaluation@),
                    decreases n - k,
                {
                    proof {
                        let sub = rules@.subrange(k as int, n as int);
                        assert(sub[0] == rules@[k as int]);
                        assert(sub.subrange(1, sub.len() as int) =~= rules@.subrange(k + 1, n as int));
                        if star_level(*self) {
                            assert(star_level(rules@[k as int]));
                        }
                        assert(decreases_to!(*self => rules@[k as int]));
                    }
                    let res = rules[k].evaluate(galaxy, &e);
                    e.reject_others(&res);
                    if e.is_done() {
                        let out = e.collect_unknown();
                        proof {
                            e.lemma_len_fits();
                            lemma_kept_bounded(e@, e@.len() as int);
                        }
                        return out;
                    }
                    k += 1;
                }
                assert(rules@.subrange(0, n as int) =~= rules@);
                let out = e.collect_unknown();
                proof {
                    e.lemma_len_fits();
                    lemma_kept_bounded(e@, e@.len() as int);
                }
                out
            },
            Rules::Or { rules } => {
                let n = rules.len();
                let mut e = evaluation.clone();
                assert(rules@.subrange(0, n as int) =~= rules@);
                let mut k: usize = 0;
                while k < n
                    invariant
                        0 <= k <= n,
                        n == rules@.len(),
                        e.wf(),
                        e@.len() == evaluation@.len(),
                        evaluation@.len() > 0,
                        galaxy.wf(),
                        galaxy.stars@ == g0,
                        galaxy.seed == old(galaxy).seed,
                        galaxy.safe@.len() == safe0.len(),
                        forall|j: int| 0 <= j < safe0.len() && #[trigger] safe0[j] ==> galaxy.safe@[j],
                        star_level(*self) ==> galaxy.safe@ == safe0,
                        or_fold(rules@.subrange(k as int, n as int), g0, e@)
                            == or_fold(rules@, g0, evaluation@),
                    decreases n - k,
                {
                    proof {
                        let sub = rules@.subrange(k as int, n as int);
                        assert(sub[0] == rules@[k as int]);
                        assert(sub.subrange(1, sub.len() as int) =~= rules@.subrange(k + 1, n as int));
                        if star_level(*self) {
                            assert(star_level(rules@[k as int]));
                        }
                        assert(decreases_to!(*self => rules@[k as int]));
                    }
                    let res = rules[k].evaluate(galaxy, &e);
                    e.confirm_many(&res);
                    if e.is_done() {
                        let out = e.collect_known();
                        proof {
                            e.lemma_len_fits();
                            lemma_accepted_bounded(e@, e@.len() as int);
                        }
                        return out;
                    }
                    k += 1;
                }
                assert(rules@.subrange(0, n as int) =~= rules@);
                let out = e.collect_known();
                proof {
                    e.lemma_len_fits();
                    lemma_accepted_bounded(e@, e@.len() as int);
                }
                out
            },
            Rules::Birth(_) => {
                let mut out: Vec<usize> = Vec::new();
                out.push(0);
                out
            },
            _ => self.evaluate_leaf(galaxy, evaluation),
        }
    }

    /// Whether the leaf matches the star.
    fn leaf_matches_exec(&self, star: &StarFacts) -> (r: bool)
        ensures
            r == leaf_matches(*self, *star),
    {
        match self {
            Rules::StarType(x) => contains_star_type(&x.star_type, star.star_type),
            Rules::Spectr(x) => contains_spectr(&x.spectr, star.spectr),
            Rules::ThemeId(x) => has_theme_in_exec(&star.planets, &x.theme_ids),
            Rules::OceanType(x) => has_water_exec(&star.planets, x.ocean_type),
            Rules::PlanetCount(x) => x.condition.eval_count(star.planets.len()),
            Rules::SatelliteCount(x) => x.condition.eval_count(count_planets_exec(&star.planets, 0, None)),
            Rules::TidalLockCount(x) => x.condition.eval_count(count_planets_exec(&star.planets, 1, None)),
            Rules::GasCount(x) => x.condition.eval_count(count_planets_exec(&star.planets, 2, x.ice)),
            Rules::Flag(x) => x.flag < star.flags.len() && star.flags[x.flag],
            _ => false,
        }
    }

    /// Whether the leaf reads the themes of planets.
    fn reads_themes_exec(&self) -> (r: bool)
        ensures
            r == reads_themes(*self),
    {
        match self {
            Rules::ThemeId(_) | Rules::OceanType(_) => true,
            Rules::GasCount(x) => x.ice.is_some(),
            _ => false,
        }
    }

    /// Evaluation of a leaf: the unknown stars before the frontier that it
    /// matches. A leaf that reads themes marks every star it passes as used.
    fn evaluate_leaf(&self, galaxy: &mut Galaxy, evaluation: &Evaluaton) -> (r: Vec<usize>)
        requires
            old(galaxy).wf(),
            evaluation.wf(),
        ensures
            final(galaxy).wf(),
            final(galaxy).stars_spec() == old(galaxy).stars_spec(),
            final(galaxy).seed_spec() == old(galaxy).seed_spec(),
            r@ == leaf_indices(
                *self,
                old(galaxy).stars_spec(),
                evaluation@,
                min(old(galaxy).stars_spec().len() as int, evaluation@.len() as int),
            ),
            forall|k: int| 0 <= k < r@.len() ==> r@[k] < evaluation@.len(),
            final(galaxy).safe_marks().len() == old(galaxy).safe_marks().len(),
            forall|i: int|
                0 <= i < old(galaxy).safe_marks().len() && #[trigger] old(galaxy).safe_marks()[i]
                    ==> final(galaxy).safe_marks()[i],
            !reads_themes(*self) ==> final(galaxy).safe_marks() == old(galaxy).safe_marks(),
    {
        let ghost g0 = galaxy.stars@;
        let ghost safe0 = galaxy.safe@;
        let frontier = evaluation.get_len();
        let bound = if frontier < galaxy.stars.len() {
            frontier
        } else {
            galaxy.stars.len()
        };
        let themed = self.reads_themes_exec();
        let mut result: Vec<usize> = Vec::new();
        let mut i: usize = 0;
        while i < bound
            invariant
                0 <= i <= bound,
                bound <= frontier,
                bound <= g0.len(),
                frontier <= evaluation@.len(),
                galaxy.wf(),
                galaxy.stars@ == g0,
                galaxy.seed == old(galaxy).seed,
                galaxy.safe@.len() == safe0.len(),
                forall|j: int| 0 <= j < safe0.len() && #[trigger] safe0[j] ==> galaxy.safe@[j],
                !themed ==> galaxy.safe@ == safe0,
                themed == reads_themes(*self),
                result@ == leaf_indices(*self, g0, evaluation@, i as int),
            decreases bound - i,
        {
            let unknown = evaluation.is_unknonwn(i);
            if unknown {
                let hit = self.leaf_matches_exec(&galaxy.stars[i]);
                if hit {
                    result.push(i);
                }
            }
            if themed {
                galaxy.mark_safe(i);
            }
            i += 1;
        }
        proof {
            let n = min(g0.len() as int, evaluation@.len() as int);
            lemma_leaf_indices_known_tail(*self, g0, evaluation@, bound as int, n);
            lemma_leaf_indices_bounded(*self, g0, evaluation@, n);
        }
        result
    }
}

/// The priorities of `s` never decrease.
pub open spec fn sorted_by_priority(s: Seq<Rules>) -> bool {
    forall|a: int, b: int| 0 <= a < b < s.len() ==> priority(s[a]) <= priority(s[b])
}

/// At every level, the rules a combinator holds are in order of priority.
pub open spec fn ordered(r: Rules) -> bool
    decreases r,
{
    match r {
        Rules::Composite { rule, condition } => ordered(*rule),
        Rules::CompositeAnd { rules } => sorted_by_priority(rules@) && forall|k: int|
            0 <= k < rules@.len() ==> ordered(#[trigger] rules@[k]),
        Rules::CompositeOr { rules } => sorted_by_priority(rules@) && forall|k: int|
            0 <= k < rules@.len() ==> ordered(#[trigger] rules@[k]),
        Rules::And { rules } => sorted_by_priority(rules@) && forall|k: int|
            0 <= k < rules@.len() ==> ordered(#[trigger] rules@[k]),
        Rules::Or { rules } => sorted_by_priority(rules@) && forall|k: int|
            0 <= k < rules@.len() ==> ordered(#[trigger] rules@[k]),
        _ => true,
    }
}

/// `a` and `b` are the same combinator, with as many rules, or the same leaf.
pub open spec fn same_node(a: Rules, b: Rules) -> bool {
    match (a, b) {
        (Rules::Composite { rule: _, condition: c1 }, Rules::Composite { rule: _, condition: c2 }) => c1 == c2,
        (Rules::CompositeAnd { rules: x }, Rules::CompositeAnd { rules: y }) => x@.len() == y@.len(),
        (Rules::CompositeOr { rules: x }, Rules::CompositeOr { rules: y }) => x@.len() == y@.len(),
        (Rules::And { rules: x }, Rules::And { rules: y }) => x@.len() == y@.len(),
        (Rules::Or { rules: x }, Rules::Or { rules: y }) => x@.len() == y@.len(),
        (Rules::Composite { .. }, _) | (Rules::CompositeAnd { .. }, _) | (Rules::CompositeOr { .. }, _)
        | (Rules::And { .. }, _) | (Rules::Or { .. }, _) => false,
        _ => a == b,
    }
}

/// `a` and `b` are the same tree: the same combinators with, rule by rule,
/// the same subtrees, and the same leaves.
pub open spec fn same_tree(a: Rules, b: Rules) -> bool
    decreases a,
{
    match (a, b) {
        (Rules::Composite { rule: x, condition: c1 }, Rules::Composite { rule: y, condition: c2 }) =>
            c1 == c2 && same_tree(*x, *y),
        (Rules::CompositeAnd { rules: x }, Rules::CompositeAnd { rules: y }) => x@.len() == y@.len()
            && forall|k: int| 0 <= k < x@.len() ==> same_tree(#[trigger] x@[k], y@[k]),
        (Rules::CompositeOr { rules: x }, Rules::CompositeOr { rules: y }) => x@.len() == y@.len()
            && forall|k: int| 0 <= k < x@.len() ==> same_tree(#[trigger] x@[k], y@[k]),
        (Rules::And { rules: x }, Rules::And { rules: y }) => x@.len() == y@.len()
            && forall|k: int| 0 <= k < x@.len() ==> same_tree(#[trigger] x@[k], y@[k]),
        (Rules::Or { rules: x }, Rules::Or { rules: y }) => x@.len() == y@.len()
            && forall|k: int| 0 <= k < x@.len() ==> same_tree(#[trigger] x@[k], y@[k]),
        (Rules::Composite { .. }, _) | (Rules::CompositeAnd { .. }, _) | (Rules::CompositeOr { .. }, _)
        | (Rules::And { .. }, _) | (Rules::Or { .. }, _) => false,
        _ => a == b,
    }
}

/// Rule by rule, `x` and `y` are the same trees.
pub open spec fn same_trees(x: Seq<Rules>, y: Seq<Rules>) -> bool {
    x.len() == y.len() && forall|k: int| 0 <= k < x.len() ==> same_tree(#[trigger] x[k], y[k])
}

/// Orders, at every level, the rules of each combinator by priority, cheapest
/// first; rules of equal priority keep their order.
pub fn transform_rules(r: Rules) -> (out: Rules)
    ensures
        ordered(out),
        same_node(r, out),
        ordered(r) ==> same_tree(r, out),
    decreases r,
{
    match r {
        Rules::Composite { rule, condition } => {
            let inner = transform_rules(*rule);
            Rules::Composite { rule: Box::new(inner), condition }
        },
        Rules::CompositeAnd { rules } => Rules::CompositeAnd { rules: sort_rules(rules) },
        Rules::CompositeOr { rules } => Rules::CompositeOr { rules: sort_rules(rules) },
        Rules::And { rules } => Rules::And { rules: sort_rules(rules) },
        Rules::Or { rules } => Rules::Or { rules: sort_rules(rules) },
        other => other,
    }
}

/// Transforms each rule and orders them by priority, cheapest first; rules of
/// equal priority keep their order.
#[verifier::loop_isolation(false)]
pub fn sort_rules(rules: Vec<Rules>) -> (out: Vec<Rules>)
    ensures
        out@.len() == rules@.len(),
        sorted_by_priority(out@),
        forall|k: int| 0 <= k < out@.len() ==> ordered(#[trigger] out@[k]),
        sorted_by_priority(rules@) && (forall|k: int| 0 <= k < rules@.len() ==> ordered(#[trigger] rules@[k]))
            ==> same_trees(rules@, out@),
    decreases rules@,
{
    let ghost orig = rules@;
    let ghost in_order = sorted_by_priority(rules@) && (forall|k: int| 0 <= k < rules@.len() ==> ordered(#[trigger] rules@[k]));
    let n = rules.len();
    let mut rest = rules;
    let mut out: Vec<Rules> = Vec::new();
    let mut k: usize = 0;
    while k < n
        invariant
            0 <= k <= n,
            n == orig.len(),
            rest@ == orig.subrange(k as int, n as int),
            out@.len() == k,
            sorted_by_priority(out@),
            forall|j: int| 0 <= j < out@.len() ==> ordered(#[trigger] out@[j]),
            in_order ==> same_trees(orig.subrange(0, k as int), out@),
            in_order ==> forall|j: int| 0 <= j < out@.len() ==> priority(#[trigger] out@[j]) == priority(orig[j]),
        decreases n - k,
    {
        let x = rest.remove(0);
        proof {
            assert(x == orig[k as int]);
            assert(decreases_to!(orig => orig[k as int]));
            assert(decreases_to!(orig => x));
        }
        let cx = transform_rules(x);
        let p = cx.get_priority();
        let mut pos: usize = out.len();
        proof {
            if in_order {
                assert(ordered(orig[k as int]));
                lemma_same_tree_priority(orig[k as int], cx);
                if k > 0 {
                    assert(priority(out@[k - 1]) == priority(orig[k - 1]));
                    assert(priority(orig[k - 1]) <= priority(orig[k as int]));
                }
            }
        }
        while pos > 0 && out[pos - 1].get_priority() > p
            invariant
                0 <= pos <= out@.len(),
                forall|j: int| pos <= j < out@.len() ==> priority(#[trigger] out@[j]) > p,
                in_order ==> pos == out@.len(),
                in_order && pos > 0 ==> priority(out@[pos - 1]) <= p,
            decreases pos,
        {
            pos = pos - 1;
        }
        let ghost before = out@;
        out.insert(pos, cx);
        proof {
            assert(pos == 0 || priority(before[pos - 1]) <= p);
            assert forall|a: int, b: int| 0 <= a < b < out@.len() implies priority(out@[a]) <= priority(out@[b]) by {
                if b < pos {
                } else if b == pos {
                    if a < pos {
                        assert(priority(before[a]) <= priority(before[pos - 1]));
                    }
                } else if a < pos {
                    assert(priority(before[a]) <= priority(before[b - 1]));
                } else if a == pos {
                    assert(priority(before[b - 1]) > p);
                } else {
                }
            }
            assert forall|j: int| 0 <= j < out@.len() implies ordered(#[trigger] out@[j]) by {
                if j < pos {
                    assert(out@[j] == before[j]);
                } else if j > pos {
                    assert(out@[j] == before[j - 1]);
                }
            }
            if in_order {
                assert(out@ == before.push(cx));
                assert(orig.subrange(0, k as int + 1) == orig.subrange(0, k as int).push(orig[k as int]));
                assert forall|j: int| 0 <= j < out@.len() implies priority(#[trigger] out@[j]) == priority(orig[j]) by {
                    if j < k {
                        assert(out@[j] == before[j]);
                    }
                }
                assert forall|j: int| 0 <= j < k + 1 implies same_tree(#[trigger] orig.subrange(0, k as int + 1)[j], out@[j]) by {
                    if j < k {
                        assert(orig.subrange(0, k as int + 1)[j] == orig.subrange(0, k as int)[j]);
                        assert(out@[j] == before[j]);
                    }
                }
            }
        }
        k += 1;
    }
    assert(orig.subrange(0, n as int) == orig);
    out
}

/// The same trees have the same priority.
pub proof fn lemma_same_tree_priority(a: Rules, b: Rules)
    requires
        same_tree(a, b),
    ensures
        priority(a) == priority(b),
    decreases a,
{
    match (a, b) {
        (Rules::Composite { rule: x, condition: _ }, Rules::Composite { rule: y, condition: _ }) => {
            lemma_same_tree_priority(*x, *y);
        },
        (Rules::CompositeAnd { rules: x }, Rules::CompositeAnd { rules: y }) => {
            lemma_same_trees_max_priority(a, x@, y@);
        },
        (Rules::CompositeOr { rules: x }, Rules::CompositeOr { rules: y }) => {
            lemma_same_trees_max_priority(a, x@, y@);
        },
        (Rules::And { rules: x }, Rules::And { rules: y }) => {
            lemma_same_trees_max_priority(a, x@, y@);
        },
        (Rules::Or { rules: x }, Rules::Or { rules: y }) => {
            lemma_same_trees_max_priority(a, x@, y@);
        },
        _ => {},
    }
}

proof fn lemma_same_trees_max_priority(parent: Rules, x: Seq<Rules>, y: Seq<Rules>)
    requires
        same_trees(x, y),
        forall|k: int| 0 <= k < x.len() ==> decreases_to!(parent => #[trigger] x[k]),
    ensures
        max_priority(x) == max_priority(y),
    decreases parent, x.len(),
{
    if x.len() > 0 {
        lemma_same_tree_priority(x[0], y[0]);
        let x1 = x.subrange(1, x.len() as int);
        let y1 = y.subrange(1, y.len() as int);
        assert forall|k: int| 0 <= k < x1.len() implies decreases_to!(parent => #[trigger] x1[k]) by {
            assert(x1[k] == x[k + 1]);
        }
        assert forall|k: int| 0 <= k < x1.len() implies same_tree(#[trigger] x1[k], y1[k]) by {
            assert(x1[k] == x[k + 1]);
        }
        lemma_same_trees_max_priority(parent, x1, y1);
    }
}

/// The same trees return the same stars.
pub proof fn lemma_same_tree_eval(a: Rules, b: Rules, g: Seq<StarFacts>, ev: Seq<Option<bool>>)
    requires
        same_tree(a, b),
    ensures
        eval_rule(a, g, ev) == eval_rule(b, g, ev),
    decreases a,
{
    match (a, b) {
        (Rules::Composite { rule: x, condition: _ }, Rules::Composite { rule: y, condition: _ }) => {
            lemma_same_tree_eval(*x, *y, g, ev);
        },
        (Rules::CompositeAnd { rules: x }, Rules::CompositeAnd { rules: y }) => {
            lemma_same_trees_eval(a, x@, y@, g, ev);
        },
        (Rules::CompositeOr { rules: x }, Rules::CompositeOr { rules: y }) => {
            lemma_same_trees_eval(a, x@, y@, g, ev);
        },
        (Rules::And { rules: x }, Rules::And { rules: y }) => {
            lemma_same_trees_eval(a, x@, y@, g, ev);
        },
        (Rules::Or { rules: x }, Rules::Or { rules: y }) => {
            lemma_same_trees_eval(a, x@, y@, g, ev);
        },
        _ => {},
    }
}

proof fn lemma_same_trees_eval(parent: Rules, x: Seq<Rules>, y: Seq<Rules>, g: Seq<StarFacts>, ev: Seq<Option<bool>>)
    requires
        same_trees(x, y),
        forall|k: int| 0 <= k < x.len() ==> decreases_to!(parent => #[trigger] x[k]),
    ensures
        all_nonempty(x, g, ev) == all_nonempty(y, g, ev),
        first_nonempty(x, g, ev) == first_nonempty(y, g, ev),
        and_fold(x, g, ev) == and_fold(y, g, ev),
        or_fold(x, g, ev) == or_fold(y, g, ev),
    decreases parent, x.len(),
{
    if x.len() > 0 {
        lemma_same_tree_eval(x[0], y[0], g, ev);
        let x1 = x.subrange(1, x.len() as int);
        let y1 = y.subrange(1, y.len() as int);
        assert forall|k: int| 0 <= k < x1.len() implies decreases_to!(parent => #[trigger] x1[k]) by {
            assert(x1[k] == x[k + 1]);
        }
        assert forall|k: int| 0 <= k < x1.len() implies same_tree(#[trigger] x1[k], y1[k]) by {
            assert(x1[k] == x[k + 1]);
        }
        let r = eval_rule(x[0], g, ev);
        lemma_same_trees_eval(parent, x1, y1, g, ev);
        lemma_same_trees_eval(parent, x1, y1, g, reject_all_but(ev, r));
        lemma_same_trees_eval(parent, x1, y1, g, confirm_all(ev, r));
    }
}

/// Compiling a compiled rule again (as happens when it is sent in its
/// declarative form and compiled on the other side) gives a tree that
/// returns the same stars on every galaxy and from every verdicts.
pub proof fn lemma_recompile_same_results(compiled: Rules, recompiled: Rules, g: Seq<StarFacts>, ev: Seq<Option<bool>>)
    requires
        ordered(compiled),
        same_tree(compiled, recompiled),
    ensures
        eval_rule(recompiled, g, ev) == eval_rule(compiled, g, ev),
{
    lemma_same_tree_eval(compiled, recompiled, g, ev);
}

/// Verdicts with every one of `n` stars unknown.
pub open spec fn fresh(n: nat) -> Seq<Option<bool>> {
    Seq::new(n, |i: int| None::<bool>)
}

/// The stars of `galaxy` (of `star_count` stars) that `rule` returns, from
/// verdicts where every star is unknown.
pub fn find_stars(galaxy: &mut Galaxy, star_count: usize, rule: &Rules) -> (r: Vec<usize>)
    requires
        old(galaxy).wf(),
        star_count > 0,
    ensures
        final(galaxy).wf(),
        final(galaxy).stars_spec() == old(galaxy).stars_spec(),
        r@ == eval_rule(*rule, old(galaxy).stars_spec(), fresh(star_count as nat)),
        forall|k: int| 0 <= k < r@.len() ==> r@[k] < star_count,
        star_level(*rule) ==> final(galaxy).safe_marks() == old(galaxy).safe_marks(),
{
    let evaluation = Evaluaton::new(star_count);
    rule.evaluate(galaxy, &evaluation)
}

proof fn lemma_kept_fresh(n: nat, k: int)
    requires
        0 <= k <= n,
        n <= usize::MAX,
    ensures
        kept_indices(fresh(n), k) == Seq::new(k as nat, |i: int| i as usize),
    decreases k,
{
    if k > 0 {
        lemma_kept_fresh(n, k - 1);
        assert(kept_indices(fresh(n), k) =~= Seq::new(k as nat, |i: int| i as usize));
    } else {
        assert(kept_indices(fresh(n), k) =~= Seq::new(k as nat, |i: int| i as usize));
    }
}

proof fn lemma_accepted_fresh(n: nat, k: int)
    requires
        0 <= k <= n,
    ensures
        accepted_indices(fresh(n), k) == Seq::<usize>::empty(),
    decreases k,
{
    if k > 0 {
        lemma_accepted_fresh(n, k - 1);
    }
}

/// An `And` of no rule returns every star; an `Or` of no rule returns none.
pub proof fn lemma_empty_and_or(and_rule: Rules, or_rule: Rules, g: Seq<StarFacts>, n: nat)
    requires
        and_rule matches Rules::And { rules } && rules@.len() == 0,
        or_rule matches Rules::Or { rules } && rules@.len() == 0,
        n <= usize::MAX,
    ensures
        eval_rule(and_rule, g, fresh(n)) == Seq::new(n, |i: int| i as usize),
        eval_rule(or_rule, g, fresh(n)) == Seq::<usize>::empty(),
{
    lemma_kept_fresh(n, n as int);
    lemma_accepted_fresh(n, n as int);
    assert(fresh(n).len() == n);
    match and_rule {
        Rules::And { rules } => {
            assert(and_fold(rules@, g, fresh(n)) == fresh(n));
        },
        _ => {},
    }
    match or_rule {
        Rules::Or { rules } => {
            assert(or_fold(rules@, g, fresh(n)) == fresh(n));
        },
        _ => {},
    }
}

} // verus!
