use vstd::prelude::*;
use crate::enums::VeinType;

verus! {

/// A resource deposit of a planet: its type and the ranges of its cluster
/// count, patch count and per-patch amount.
#[derive(Debug, Clone, Copy, PartialEq, Eq, Structural)]
pub struct Vein {
    pub vein_type: VeinType,
    pub min_group: i32,
    pub max_group: i32,
    pub min_patch: i32,
    pub max_patch: i32,
    pub min_amount: i32,
    pub max_amount: i32,
}

impl Vein {
    /// An empty vein: no type, every range zero.
    pub fn new() -> (r: Vein)
        ensures
            r == (Vein {
                vein_type: VeinType::Undefined,
                min_group: 0,
                max_group: 0,
                min_patch: 0,
                max_patch: 0,
                min_amount: 0,
                max_amount: 0,
            }),
    {
        Vein {
            vein_type: VeinType::Undefined,
            min_group: 0,
            max_group: 0,
            min_patch: 0,
            max_patch: 0,
            min_amount: 0,
            max_amount: 0,
        }
    }
}

impl Default for Vein {
    fn default() -> (r: Vein)
        ensures
            r == Vein::new_spec(),
    {
        Vein::new()
    }
}

impl Vein {
    pub open spec fn new_spec() -> Vein {
        Vein {
            vein_type: VeinType::Undefined,
            min_group: 0,
            max_group: 0,
            min_patch: 0,
            max_patch: 0,
            min_amount: 0,
            max_amount: 0,
        }
    }
}

} // verus!
