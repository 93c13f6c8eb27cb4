use sand_drop_clicker::catalog::{Rgb, SandParticle};
use sand_drop_clicker::game::tier_for_draw;

#[test]
fn test_sand_particle_color() {
    let particle = SandParticle::Coral;
    assert_eq!(particle.color(), Rgb::from_rgb(248, 131, 121));
}

#[test]
fn test_sand_particle_value() {
    let particle = SandParticle::Gold;
    assert_eq!(particle.value(), 1024);
}

#[test]
fn test_sand_particle_cost() {
    assert_eq!(SandParticle::cost(0), 0);
    assert_eq!(SandParticle::cost(1), 100);
    assert_eq!(SandParticle::cost(11), 10000000);
}

#[test]
fn test_sand_particle_from_u32() {
    assert_eq!(SandParticle::from_u32(0), Some(SandParticle::Sand));
    assert_eq!(SandParticle::from_u32(5), Some(SandParticle::Volcanic));
    assert_eq!(SandParticle::from_u32(12), None);
}

#[test]
fn test_sand_particle_max_level() {
    assert_eq!(SandParticle::max_level(), 12);
}

#[test]
fn values_double_along_the_tiers() {
    for n in 0..12u32 {
        let p = SandParticle::from_u32(n).unwrap();
        assert_eq!(p.index(), n);
        assert_eq!(p.value(), 1i64 << n);
    }
}

#[test]
fn tier_draws() {
    assert_eq!(tier_for_draw(0, 12345), SandParticle::Sand);
    assert_eq!(tier_for_draw(1, u32::MAX), SandParticle::Sand);
    assert_eq!(tier_for_draw(5, 13), SandParticle::Coral);
    assert_eq!(tier_for_draw(12, 11), SandParticle::Diamond);
    assert_eq!(tier_for_draw(12, 12), SandParticle::Sand);
    // a level past the table falls back to the first tier
    assert_eq!(tier_for_draw(20, 15), SandParticle::Sand);
}
