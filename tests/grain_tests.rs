use sand_drop_clicker::catalog::Rgb;
use sand_drop_clicker::grain::{Grain, FLOOR, GRAIN_SIZE, UNITS_PER_PIXEL};

const PX: i64 = UNITS_PER_PIXEL;

#[test]
fn test_grain_new() {
    let grain = Grain::new(100 * PX, 200 * PX, GRAIN_SIZE, Rgb::white());
    assert_eq!(grain.rect.x, 100 * PX - GRAIN_SIZE / 2);
    assert_eq!(grain.rect.y, 200 * PX - GRAIN_SIZE / 2);
    assert_eq!(grain.rect.w, GRAIN_SIZE);
    assert_eq!(grain.rect.h, GRAIN_SIZE);
    assert_eq!(grain.color, Rgb::white());
}

#[test]
fn test_grain_is_done() {
    let grain = Grain::new(0, FLOOR + 10 * PX, GRAIN_SIZE, Rgb::white());
    assert!(grain.is_done());
}

#[test]
fn test_grain_update() {
    let mut grain = Grain::new(0, 0, GRAIN_SIZE, Rgb::white());
    grain.update(1000000);
    assert!(grain.rect.y > 0);
}

#[test]
fn one_second_of_fall() {
    let mut grain = Grain::new(0, 0, GRAIN_SIZE, Rgb::white());
    grain.update(1000000);
    // 300 px/s after one second, 300 px fallen at that speed
    assert_eq!(grain.y_v, 300 * PX);
    assert_eq!(grain.rect.y, -GRAIN_SIZE / 2 + 300 * PX);
    assert_eq!(grain.rotation, 3000000);
}

#[test]
fn grain_settles_on_the_floor() {
    let mut grain = Grain::new(400 * PX, 0, GRAIN_SIZE, Rgb::white());
    assert_eq!(grain.y_v, 0);
    let mut steps = 0;
    while !grain.is_done() {
        assert!(grain.rect.y + grain.rect.h < FLOOR);
        grain.update(33333);
        steps += 1;
        assert!(steps < 1000);
    }
    assert!(steps > 1);
    assert_eq!(grain.rect.y, FLOOR - GRAIN_SIZE);
    assert_eq!(grain.y_v, 0);
    let rested = grain;
    grain.update(33333);
    assert_eq!(grain, rested);
}
