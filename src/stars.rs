//! Kinds of the stars of a galaxy by index.
use vstd::prelude::*;
use crate::enums::{SpectrType, StarType};

verus! {

/// The kind a star is made with, and the spectral class it is forced to
/// (`X` when none is forced).
#[derive(Debug, Clone, Copy, PartialEq, Eq, Structural)]
pub struct StarKind {
    pub star_type: StarType,
    pub spectr: SpectrType,
}

/// Kind of star `index` of `count` stars, of which the last `black_holes`
/// are black holes, the `neutron_stars` before them neutron stars, and the
/// `white_dwarfs` before those white dwarfs; one main-sequence star per
/// group of `(first white dwarf - 1) / giants` indices, at the middle of
/// the group, is a giant. Star 0 is the birth star; star 3 is forced to
/// class M and the star just before the first white dwarf to class O.
pub open spec fn star_kind(index: int, count: int, black_holes: int, neutron_stars: int, white_dwarfs: int, giants: int) -> StarKind {
    let bh_start = count - black_holes;
    let ns_start = bh_start - neutron_stars;
    let wd_start = ns_start - white_dwarfs;
    let group = (wd_start - 1) / giants;
    if index == 0 {
        StarKind { star_type: StarType::MainSeqStar, spectr: SpectrType::X }
    } else {
        let spectr = if index == 3 {
            SpectrType::M
        } else if index == wd_start - 1 {
            SpectrType::O
        } else {
            SpectrType::X
        };
        let star_type = if index % group == group / 2 {
            StarType::GiantStar
        } else if index >= bh_start {
            StarType::BlackHole
        } else if index >= ns_start {
            StarType::NeutronStar
        } else if index >= wd_start {
            StarType::WhiteDwarf
        } else {
            StarType::MainSeqStar
        };
        StarKind { star_type, spectr }
    }
}

/// Kinds of the `count` stars of a galaxy, in index order.
pub fn star_kinds(count: usize, black_holes: usize, neutron_stars: usize, white_dwarfs: usize, giants: usize) -> (r: Vec<StarKind>)
    requires
        black_holes + neutron_stars + white_dwarfs < count,
        giants >= 1,
        count - black_holes - neutron_stars - white_dwarfs - 1 >= giants,
    ensures
        r@.len() == count,
        forall|i: int|
            0 <= i < count ==> #[trigger] r@[i] == star_kind(
                i,
                count as int,
                black_holes as int,
                neutron_stars as int,
                white_dwarfs as int,
                giants as int,
            ),
        r@[0] == (StarKind { star_type: StarType::MainSeqStar, spectr: SpectrType::X }),
{
    let bh_start = count - black_holes;
    let ns_start = bh_start - neutron_stars;
    let wd_start = ns_start - white_dwarfs;
    let group = (wd_start - 1) / giants;
    proof {
        vstd::arithmetic::div_mod::lemma_div_is_ordered(giants as int, (wd_start - 1) as int, giants as int);
        vstd::arithmetic::div_mod::lemma_div_basics(giants as int);
    }
    let offset = group / 2;
    let mut r: Vec<StarKind> = Vec::new();
    let mut index: usize = 0;
    while index < count
        invariant
            0 <= index <= count,
            r@.len() == index,
            bh_start == count - black_holes,
            ns_start == bh_start - neutron_stars,
            wd_start == ns_start - white_dwarfs,
            wd_start >= 1,
            group as int == (wd_start as int - 1) / (giants as int),
            giants >= 1,
            group >= 1,
            offset == group / 2,
            forall|i: int|
                0 <= i < index ==> #[trigger] r@[i] == star_kind(
                    i,
                    count as int,
                    black_holes as int,
                    neutron_stars as int,
                    white_dwarfs as int,
                    giants as int,
                ),
        decreases count - index,
    {
        if index == 0 {
            r.push(StarKind { star_type: StarType::MainSeqStar, spectr: SpectrType::X });
        } else {
            let spectr = if index == 3 {
                SpectrType::M
            } else if index == wd_start - 1 {
                SpectrType::O
            } else {
                SpectrType::X
            };
            let star_type = if index % group == offset {
                StarType::GiantStar
            } else if index >= bh_start {
                StarType::BlackHole
            } else if index >= ns_start {
                StarType::NeutronStar
            } else if index >= wd_start {
                StarType::WhiteDwarf
            } else {
                StarType::MainSeqStar
            };
            r.push(StarKind { star_type, spectr });
        }
        index += 1;
    }
    r
}

} // verus!
