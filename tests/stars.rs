use dsp_worldgen::{star_kinds, SpectrType, StarType};

#[test]
fn birth_star_is_first_and_main_sequence() {
    let kinds = star_kinds(64, 1, 1, 2, 1);
    assert_eq!(kinds.len(), 64);
    assert_eq!(kinds[0].star_type, StarType::MainSeqStar);
    assert_eq!(kinds[0].spectr, SpectrType::X);
}

#[test]
fn kinds_follow_the_counts() {
    // 64 stars: black hole 63, neutron star 62, white dwarfs 60..62,
    // giant groups of (60 - 1) / 1 = 59 indices, giant at offset 29.
    let kinds = star_kinds(64, 1, 1, 2, 1);
    assert_eq!(kinds[63].star_type, StarType::BlackHole);
    assert_eq!(kinds[62].star_type, StarType::NeutronStar);
    assert_eq!(kinds[61].star_type, StarType::WhiteDwarf);
    assert_eq!(kinds[60].star_type, StarType::WhiteDwarf);
    assert_eq!(kinds[59].star_type, StarType::MainSeqStar);
    assert_eq!(kinds[59].spectr, SpectrType::O);
    assert_eq!(kinds[3].spectr, SpectrType::M);
    assert_eq!(kinds[29].star_type, StarType::GiantStar);
    let giants = kinds.iter().filter(|k| k.star_type == StarType::GiantStar).count();
    assert_eq!(giants, 1);
}

#[test]
fn several_giants() {
    let kinds = star_kinds(32, 1, 1, 1, 3);
    // first white dwarf at 29, groups of 28 / 3 = 9, giants at 4, 13, 22 and
    // 31: the giant test comes before the black-hole one
    let giants: Vec<usize> =
        (0..32).filter(|i| kinds[*i].star_type == StarType::GiantStar).collect();
    assert_eq!(giants, vec![4, 13, 22, 31]);
}
