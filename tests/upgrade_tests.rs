use sand_drop_clicker::catalog::SandParticle;
use sand_drop_clicker::growth::{price_after_growth, PRICE_LIMIT};
use sand_drop_clicker::upgrade::Upgrade;

#[test]
fn test_upgrade_desc() {
    let upgrade = Upgrade::MoreParticles;
    assert_eq!(upgrade.desc(), "This will allow you to drop more sand per click:");
}

#[test]
fn test_upgrade_btn_txt() {
    let upgrade = Upgrade::AutoClicker;
    assert_eq!(upgrade.btn_txt(), "Buy Auto Clicker");
}

#[test]
fn test_upgrade_cost() {
    let upgrade = Upgrade::BiggerContainer;
    let base_m: f64 = 1.1;
    let base_cost: f64 = 50.0;
    let m: f64 = 100.0;
    let cost_level_100 = base_cost * base_m.powf(m);
    assert_eq!(upgrade.cost(0), 50);
    assert_eq!(upgrade.cost(100), cost_level_100.round() as i64);
}

#[test]
fn test_upgrade_max_level() {
    let upgrade = Upgrade::ParticleTier;
    assert_eq!(upgrade.max_level(), Some(SandParticle::max_level()));
}

#[test]
fn bigger_container_first_levels() {
    let upgrade = Upgrade::BiggerContainer;
    assert_eq!(upgrade.cost(0), 50);
    assert_eq!(upgrade.cost(1), 55);
    // 60.5 rounds up
    assert_eq!(upgrade.cost(2), 61);
    // 66.55
    assert_eq!(upgrade.cost(3), 67);
}

#[test]
fn growth_matches_floating_point_where_far_from_a_half() {
    for n in 0..60u32 {
        for (upgrade, base) in [
            (Upgrade::BiggerContainer, 50.0f64),
            (Upgrade::AutoClicker, 700.0),
            (Upgrade::MoreParticles, 1000.0),
        ] {
            let exact = base * 1.1f64.powi(n as i32);
            if (exact.fract() - 0.5).abs() > 1e-6 {
                assert_eq!(upgrade.cost(n), exact.round() as i64, "level {}", n);
            }
        }
    }
}

#[test]
fn cost_never_falls_with_level() {
    for upgrade in Upgrade::all() {
        let top = match upgrade {
            Upgrade::ParticleTier => 11,
            _ => 600,
        };
        for n in 0..top {
            let here = upgrade.cost(n);
            let next = upgrade.cost(n + 1);
            assert!(here <= next, "{:?} at {}", upgrade, n);
            if here < PRICE_LIMIT {
                assert!(here < next, "{:?} at {}", upgrade, n);
            }
        }
    }
}

#[test]
fn particle_tier_cost_follows_the_table() {
    assert_eq!(Upgrade::ParticleTier.cost(1), 100);
    assert_eq!(Upgrade::ParticleTier.cost(11), 10000000);
    assert_eq!(Upgrade::ParticleTier.cost(12), 0);
}

#[test]
fn cost_is_held_at_the_limit() {
    assert_eq!(Upgrade::BiggerContainer.cost(1000), PRICE_LIMIT);
    assert_eq!(Upgrade::BiggerContainer.cost(u32::MAX), PRICE_LIMIT);
    assert_eq!(price_after_growth(u64::MAX, 0), PRICE_LIMIT);
    assert!(Upgrade::BiggerContainer.cost(400) < PRICE_LIMIT);
}

#[test]
fn caps_of_each_kind() {
    assert_eq!(Upgrade::BiggerContainer.max_level(), None);
    assert_eq!(Upgrade::AutoClicker.max_level(), Some(100));
    assert_eq!(Upgrade::MoreParticles.max_level(), Some(50));
}
