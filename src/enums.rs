use vstd::prelude::*;

verus! {

/// Kind of a star.
#[derive(Debug, Clone, Copy, PartialEq, Eq, Hash, Structural)]
pub enum StarType {
    MainSeqStar,
    GiantStar,
    WhiteDwarf,
    NeutronStar,
    BlackHole,
}

/// Spectral class, ordered from coolest (`M`) to hottest (`O`); `X` marks an
/// evolved star.
#[derive(Debug, Clone, Copy, PartialEq, Eq, Hash, Structural)]
pub enum SpectrType {
    M,
    K,
    G,
    F,
    A,
    B,
    O,
    X,
}

/// Surface kind of a planet.
#[derive(Debug, Clone, Copy, PartialEq, Eq, Hash, Structural)]
pub enum PlanetType {
    Undefined,
    Vocano,
    Ocean,
    Desert,
    Ice,
    Gas,
}

/// Distribution class of a theme.
#[derive(Debug, Clone, Copy, PartialEq, Eq, Hash, Structural)]
pub enum ThemeDistribute {
    Default,
    Birth,
    Interstellar,
    Rare,
}

/// Kind of a resource vein; its position in this list is its numeric id.
#[derive(Debug, Clone, Copy, PartialEq, Eq, Hash, Structural)]
pub enum VeinType {
    Undefined,
    Iron,
    Copper,
    Silicium,
    Titanium,
    Stone,
    Coal,
    Oil,
    Fireice,
    Diamond,
    Fractal,
    Crysrub,
    Grat,
    Bamboo,
    Mag,
    Max,
}

impl Default for StarType {
    fn default() -> (r: Self)
        ensures
            r == StarType::MainSeqStar,
    {
        StarType::MainSeqStar
    }
}

impl Default for PlanetType {
    fn default() -> (r: Self)
        ensures
            r == PlanetType::Undefined,
    {
        PlanetType::Undefined
    }
}

impl Default for ThemeDistribute {
    fn default() -> (r: Self)
        ensures
            r == ThemeDistribute::Default,
    {
        ThemeDistribute::Default
    }
}

impl Default for VeinType {
    fn default() -> (r: Self)
        ensures
            r == VeinType::Undefined,
    {
        VeinType::Undefined
    }
}

/// The vein types placed by the rare-vein pass.
pub open spec fn is_rare_vein(v: VeinType) -> bool {
    v == VeinType::Fireice || v == VeinType::Diamond || v == VeinType::Fractal || v
        == VeinType::Crysrub || v == VeinType::Grat || v == VeinType::Bamboo
}

/// Numeric id of a vein type.
pub open spec fn vein_id(v: VeinType) -> int {
    match v {
        VeinType::Undefined => 0,
        VeinType::Iron => 1,
        VeinType::Copper => 2,
        VeinType::Silicium => 3,
        VeinType::Titanium => 4,
        VeinType::Stone => 5,
        VeinType::Coal => 6,
        VeinType::Oil => 7,
        VeinType::Fireice => 8,
        VeinType::Diamond => 9,
        VeinType::Fractal => 10,
        VeinType::Crysrub => 11,
        VeinType::Grat => 12,
        VeinType::Bamboo => 13,
        VeinType::Mag => 14,
        VeinType::Max => 15,
    }
}

/// Position of a spectral class in the order `M, K, G, F, A, B, O, X`.
pub open spec fn spectr_rank(s: SpectrType) -> int {
    match s {
        SpectrType::M => 0,
        SpectrType::K => 1,
        SpectrType::G => 2,
        SpectrType::F => 3,
        SpectrType::A => 4,
        SpectrType::B => 5,
        SpectrType::O => 6,
        SpectrType::X => 7,
    }
}

impl VeinType {
    pub fn is_rare(&self) -> (r: bool)
        ensures
            r == is_rare_vein(*self),
    {
        match self {
            VeinType::Fireice | VeinType::Diamond | VeinType::Fractal | VeinType::Crysrub
            | VeinType::Grat | VeinType::Bamboo => true,
            _ => false,
        }
    }

    /// Numeric id of this vein type.
    pub fn id(&self) -> (r: u8)
        ensures
            r as int == vein_id(*self),
    {
        match self {
            VeinType::Undefined => 0,
            VeinType::Iron => 1,
            VeinType::Copper => 2,
            VeinType::Silicium => 3,
            VeinType::Titanium => 4,
            VeinType::Stone => 5,
            VeinType::Coal => 6,
            VeinType::Oil => 7,
            VeinType::Fireice => 8,
            VeinType::Diamond => 9,
            VeinType::Fractal => 10,
            VeinType::Crysrub => 11,
            VeinType::Grat => 12,
            VeinType::Bamboo => 13,
            VeinType::Mag => 14,
            VeinType::Max => 15,
        }
    }

    /// The vein type with the given numeric id.
    pub fn from_id(id: u8) -> (r: Option<VeinType>)
        ensures
            id <= 15 <==> r.is_some(),
            r.is_some() ==> vein_id(r.unwrap()) == id as int,
    {
        match id {
            0 => Some(VeinType::Undefined),
            1 => Some(VeinType::Iron),
            2 => Some(VeinType::Copper),
            3 => Some(VeinType::Silicium),
            4 => Some(VeinType::Titanium),
            5 => Some(VeinType::Stone),
            6 => Some(VeinType::Coal),
            7 => Some(VeinType::Oil),
            8 => Some(VeinType::Fireice),
            9 => Some(VeinType::Diamond),
            10 => Some(VeinType::Fractal),
            11 => Some(VeinType::Crysrub),
            12 => Some(VeinType::Grat),
            13 => Some(VeinType::Bamboo),
            14 => Some(VeinType::Mag),
            15 => Some(VeinType::Max),
            _ => None,
        }
    }
}

impl SpectrType {
    /// Position of this class in the order `M, K, G, F, A, B, O, X`.
    pub fn rank(&self) -> (r: u8)
        ensures
            r as int == spectr_rank(*self),
    {
        match self {
            SpectrType::M => 0,
            SpectrType::K => 1,
            SpectrType::G => 2,
            SpectrType::F => 3,
            SpectrType::A => 4,
            SpectrType::B => 5,
            SpectrType::O => 6,
            SpectrType::X => 7,
        }
    }

    /// The class at a position of the order `M, K, G, F, A, B, O, X`.
    pub fn from_rank(rank: u8) -> (r: Option<SpectrType>)
        ensures
            rank <= 7 <==> r.is_some(),
            r.is_some() ==> spectr_rank(r.unwrap()) == rank as int,
    {
        match rank {
            0 => Some(SpectrType::M),
            1 => Some(SpectrType::K),
            2 => Some(SpectrType::G),
            3 => Some(SpectrType::F),
            4 => Some(SpectrType::A),
            5 => Some(SpectrType::B),
            6 => Some(SpectrType::O),
            7 => Some(SpectrType::X),
            _ => None,
        }
    }
}

} // verus!
