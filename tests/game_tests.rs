use sand_drop_clicker::catalog::SandParticle;
use sand_drop_clicker::game::{SandDropClicker, AUTO_CLICK_PERIOD, SCATTER, TICK};
use sand_drop_clicker::grain::{FIELD_WIDTH, FLOOR, GRAIN_SIZE, UNITS_PER_PIXEL};
use sand_drop_clicker::upgrade::Upgrade;

const PX: i64 = UNITS_PER_PIXEL;

#[test]
fn new_game() {
    let game = SandDropClicker::new();
    assert_eq!(game.money(), 0);
    assert_eq!(game.level(Upgrade::ParticleTier), 1);
    assert_eq!(game.level(Upgrade::BiggerContainer), 0);
    assert_eq!(game.level(Upgrade::AutoClicker), 0);
    assert_eq!(game.level(Upgrade::MoreParticles), 0);
    assert_eq!(game.get_amount(), 0);
    assert!(!game.is_unlocked(Upgrade::BiggerContainer));
}

#[test]
fn capacity_by_level() {
    let mut game = SandDropClicker::new();
    assert_eq!(game.get_size(), 25);
    game.upgrades.bigger_container = 1;
    assert_eq!(game.get_size(), 50);
    game.upgrades.bigger_container = 9;
    assert_eq!(game.get_size(), 250);
}

#[test]
fn spawning_stops_at_capacity() {
    let mut game = SandDropClicker::new();
    game.upgrades.more_particles = 50;
    game.add_grain(100 * PX, 100 * PX);
    assert_eq!(game.get_amount(), 25);
    assert!(game.is_full());
    game.add_grain(100 * PX, 100 * PX);
    assert_eq!(game.get_amount(), 25);
    game.spawn_at(100 * PX, 100 * PX);
    assert_eq!(game.get_amount(), 25);
    assert_eq!(game.total_clicks, 0);
}

#[test]
fn partial_batch_fills_the_container() {
    let mut game = SandDropClicker::new();
    game.upgrades.more_particles = 9;
    game.add_grain(100 * PX, 100 * PX);
    game.add_grain(100 * PX, 100 * PX);
    assert_eq!(game.get_amount(), 20);
    game.add_grain(100 * PX, 100 * PX);
    assert_eq!(game.get_amount(), 25);
}

#[test]
fn drops_land_at_the_click_and_around_it() {
    let mut game = SandDropClicker::new();
    game.upgrades.more_particles = 20;
    game.add_grain(790 * PX, 300 * PX);
    let grains = game.grains();
    assert_eq!(grains.len(), 21);
    assert_eq!(grains[0].rect.x, 790 * PX - GRAIN_SIZE / 2);
    assert_eq!(grains[0].rect.y, 300 * PX - GRAIN_SIZE / 2);
    let mut xs = Vec::new();
    for g in grains.iter().skip(1) {
        let cx = g.rect.x + GRAIN_SIZE / 2;
        let cy = g.rect.y + GRAIN_SIZE / 2;
        assert!(0 <= cx && cx <= FIELD_WIDTH);
        assert!(300 * PX - SCATTER <= cy && cy < 300 * PX + SCATTER);
        xs.push(cx);
        assert_eq!(g.y_v, 0);
    }
    xs.sort();
    xs.dedup();
    assert!(xs.len() > 1);
}

#[test]
fn clicks_are_counted_and_x_is_held_inside() {
    let mut game = SandDropClicker::new();
    game.spawn_at(-50 * PX, 10 * PX);
    assert_eq!(game.total_clicks, 1);
    assert_eq!(game.grains()[0].rect.x, -GRAIN_SIZE / 2);
    game.spawn_at(5000 * PX, 10 * PX);
    assert_eq!(game.grains()[1].rect.x, FIELD_WIDTH - GRAIN_SIZE / 2);
}

#[test]
fn selling_empties_and_pays_the_tier_values() {
    let mut game = SandDropClicker::new();
    game.upgrades.particle_tier = 12;
    game.upgrades.more_particles = 10;
    game.add_grain(100 * PX, 100 * PX);
    game.add_grain(200 * PX, 100 * PX);
    let mut worth = 0i64;
    for n in 0..12u32 {
        let p = SandParticle::from_u32(n).unwrap();
        worth += game.held(p) as i64 * p.value();
    }
    assert_eq!(game.get_amount(), 22);
    game.money = 7;
    game.make_money();
    assert_eq!(game.get_amount(), 0);
    assert_eq!(game.money(), 7 + worth);
    for n in 0..12u32 {
        assert_eq!(game.held(SandParticle::from_u32(n).unwrap()), 0);
    }
}

#[test]
fn selling_nothing_pays_nothing() {
    let mut game = SandDropClicker::new();
    game.money = 40;
    game.make_money();
    assert_eq!(game.money(), 40);
    assert_eq!(game.get_amount(), 0);
}

#[test]
fn first_tier_only_until_the_second_is_unlocked() {
    let mut game = SandDropClicker::new();
    for _ in 0..200 {
        assert_eq!(game.rand_sand(), SandParticle::Sand);
    }
    game.upgrades.more_particles = 24;
    game.add_grain(10 * PX, 10 * PX);
    assert_eq!(game.held(SandParticle::Sand), 25);
    game.upgrades.particle_tier = 3;
    for _ in 0..200 {
        assert!(game.rand_sand().index() < 3);
    }
}

#[test]
fn buying_needs_the_full_price() {
    let mut game = SandDropClicker::new();
    game.money = 49;
    game.buy(Upgrade::BiggerContainer);
    assert_eq!(game.money(), 49);
    assert_eq!(game.level(Upgrade::BiggerContainer), 0);
    game.money = 50;
    game.buy(Upgrade::BiggerContainer);
    assert_eq!(game.money(), 0);
    assert_eq!(game.level(Upgrade::BiggerContainer), 1);
    assert_eq!(game.upgrade_cost(Upgrade::BiggerContainer), 55);
}

#[test]
fn a_maxed_upgrade_is_not_sold() {
    let mut game = SandDropClicker::new();
    game.upgrades.more_particles = 50;
    assert!(game.is_maxed(Upgrade::MoreParticles));
    game.money = 1_000_000_000;
    game.buy(Upgrade::MoreParticles);
    assert_eq!(game.money(), 1_000_000_000);
    assert_eq!(game.level(Upgrade::MoreParticles), 50);
    assert!(!game.is_maxed(Upgrade::BiggerContainer));
}

#[test]
fn offers_stay_once_made() {
    let mut game = SandDropClicker::new();
    game.refresh_unlocks();
    assert!(!game.is_unlocked(Upgrade::BiggerContainer));
    game.money = 100;
    game.refresh_unlocks();
    assert!(game.is_unlocked(Upgrade::BiggerContainer));
    assert!(game.is_unlocked(Upgrade::ParticleTier));
    assert!(!game.is_unlocked(Upgrade::AutoClicker));
    game.money = 0;
    game.refresh_unlocks();
    assert!(game.is_unlocked(Upgrade::BiggerContainer));
}

#[test]
fn auto_clicker_drops_once_per_period() {
    let mut game = SandDropClicker::new();
    game.upgrades.auto_clicker = 1;
    let mut ticks = 0u64;
    while game.get_amount() == 0 {
        game.autoclicker(TICK);
        ticks += 1;
        assert!(ticks < 1000);
    }
    assert_eq!(ticks, (AUTO_CLICK_PERIOD + TICK - 1) / TICK);
    assert_eq!(game.autoclicker_timer, 0);
    assert_eq!(game.get_amount(), 1);
    let g = game.grains()[0];
    assert_eq!(g.rect.y, -GRAIN_SIZE / 2);
    assert_eq!(game.total_clicks, 0);
}

#[test]
fn auto_clicker_collapses_a_long_wait_into_one_drop() {
    let mut game = SandDropClicker::new();
    game.upgrades.auto_clicker = 100;
    game.autoclicker(1000000);
    assert_eq!(game.get_amount(), 1);
    assert_eq!(game.autoclicker_timer, 0);
}

#[test]
fn auto_clicker_rests_without_level_or_room() {
    let mut game = SandDropClicker::new();
    game.autoclicker(1000000);
    assert_eq!(game.autoclicker_timer, 0);
    assert_eq!(game.get_amount(), 0);
    game.upgrades.auto_clicker = 1;
    game.upgrades.more_particles = 24;
    game.add_grain(10 * PX, 10 * PX);
    game.autoclicker(1000000);
    assert_eq!(game.autoclicker_timer, 0);
    assert_eq!(game.get_amount(), 25);
}

#[test]
fn advance_moves_the_clock_and_the_grains() {
    let mut game = SandDropClicker::new();
    game.spawn_at(100 * PX, 100 * PX);
    for _ in 0..300 {
        game.advance(TICK);
    }
    assert_eq!(game.total_time, 300 * TICK);
    let g = game.grains()[0];
    assert!(g.is_done());
    assert_eq!(g.rect.y, FLOOR - GRAIN_SIZE);
    assert_eq!(g.y_v, 0);
}

#[test]
fn info_toggles() {
    let mut game = SandDropClicker::new();
    assert!(!game.show_info);
    game.toggle_info();
    assert!(game.show_info);
    game.toggle_info();
    assert!(!game.show_info);
}

#[test]
fn drops_count_only_drawable_tiers() {
    let mut game = SandDropClicker::new();
    game.upgrades.particle_tier = 3;
    game.upgrades.bigger_container = 3;
    game.upgrades.more_particles = 40;
    game.add_grain(400 * PX, 100 * PX);
    assert_eq!(game.get_amount(), 41);
    let mut total = 0;
    for n in 0..12u32 {
        let p = SandParticle::from_u32(n).unwrap();
        if n >= 3 {
            assert_eq!(game.held(p), 0);
        }
        total += game.held(p);
    }
    assert_eq!(total, 41);
    let drawable: Vec<_> = (0..3u32).map(|n| SandParticle::from_u32(n).unwrap().color()).collect();
    for g in game.grains() {
        assert!(drawable.contains(&g.color));
    }
}

#[test]
fn scatter_stays_near_the_click_and_inside_the_walls() {
    let mut game = SandDropClicker::new();
    game.upgrades.more_particles = 24;
    game.add_grain(20 * PX, 100 * PX);
    for g in game.grains().iter().skip(1) {
        let cx = g.rect.x + GRAIN_SIZE / 2;
        assert!(0 <= cx && cx < 20 * PX + SCATTER);
    }
}

#[test]
fn advance_fires_the_auto_clicker_after_moving_the_grains() {
    let mut game = SandDropClicker::new();
    game.upgrades.auto_clicker = 100;
    game.spawn_at(100 * PX, 100 * PX);
    let before = game.grains()[0];
    game.autoclicker_timer = 49_000;
    game.advance(TICK);
    assert_eq!(game.autoclicker_timer, 0);
    assert_eq!(game.get_amount(), 2);
    let mut moved = before;
    moved.update(TICK);
    assert_eq!(game.grains()[0], moved);
    let fresh = game.grains()[1];
    assert_eq!(fresh.y_v, 0);
    assert_eq!(fresh.rect.y, -GRAIN_SIZE / 2);
    game.advance(TICK);
    assert_eq!(game.autoclicker_timer, TICK);
}
