//! Deterministic reconstruction of a procedurally generated galaxy, and the
//! rule engine that scans seeds for galaxies matching a predicate.
//!
//! Every random draw of the generator is a double of the form `k / 2^62`; the
//! library keeps draws as that integer numerator, so that the decisions taken
//! on them are exact and verified.

pub mod double;
pub mod draws;
mod enums;
pub mod evaluation;
pub mod orbits;
pub mod progress;
pub mod random;
pub mod rules;
pub mod stars;
pub mod themes;
mod vein;
pub mod veins;

pub use draws::{PlanetDraws, StarDraws};
pub use enums::{PlanetType, SpectrType, StarType, ThemeDistribute, VeinType};
pub use evaluation::{Evaluaton, RuleTarget};
pub use orbits::{planet_slots, PlanetSlot};
pub use progress::FindState;
pub use random::{DspRandom, MBIG};
pub use rules::{
    find_stars, sort_rules, transform_rules, Condition, Galaxy, PlanetFacts, RuleBirth, RuleFlag,
    RuleGasCount, RuleOceanType, RulePlanetCount, RuleSatelliteCount, RuleSpectr, RuleStarType,
    RuleThemeId, RuleTidalLockCount, Rules, StarFacts,
};
pub use stars::{star_kinds, StarKind};
pub use themes::{choose_theme, ThemeInfo, ThemeRequest};
pub use vein::Vein;
pub use veins::{vein_groups, RareVein};
