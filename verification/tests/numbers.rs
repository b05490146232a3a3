use the_claw::fixed::{ceil_sqrt, floor_sqrt, lerp, mul_div, saturate, squared, RATIO_ONE, UNIT};
use the_claw::timer::{Stopwatch, Timer, TimerMode};
use the_claw::vector::{Quat, Vec2, Vec3};

#[test]
fn floor_sqrt_rounds_down() {
    assert_eq!(floor_sqrt(0), 0);
    assert_eq!(floor_sqrt(1), 1);
    assert_eq!(floor_sqrt(2), 1);
    assert_eq!(floor_sqrt(3), 1);
    assert_eq!(floor_sqrt(4), 2);
    assert_eq!(floor_sqrt(24), 4);
    assert_eq!(floor_sqrt(25), 5);
    assert_eq!(floor_sqrt(1_600_000_000), 40_000);
    assert_eq!(floor_sqrt(1_599_999_999), 39_999);
    assert_eq!(floor_sqrt(u128::MAX), 0xffff_ffff_ffff_ffff);
}

#[test]
fn ceil_sqrt_rounds_up() {
    assert_eq!(ceil_sqrt(0), 0);
    assert_eq!(ceil_sqrt(1), 1);
    assert_eq!(ceil_sqrt(2), 2);
    assert_eq!(ceil_sqrt(4), 2);
    assert_eq!(ceil_sqrt(5), 3);
    assert_eq!(ceil_sqrt(25), 5);
    assert_eq!(ceil_sqrt(26), 6);
    assert_eq!(ceil_sqrt(u128::MAX), 0x1_0000_0000_0000_0000);
}

#[test]
fn squared_takes_negative_numbers() {
    assert_eq!(squared(0), 0);
    assert_eq!(squared(-3), 9);
    assert_eq!(squared(40_000), 1_600_000_000);
    assert_eq!(squared(i32::MIN), 0x4000_0000_0000_0000);
}

#[test]
fn saturate_stops_at_the_ends() {
    assert_eq!(saturate(0), 0);
    assert_eq!(saturate(-5), -5);
    assert_eq!(saturate(i32::MAX as i128), i32::MAX);
    assert_eq!(saturate(i32::MAX as i128 + 1), i32::MAX);
    assert_eq!(saturate(i32::MIN as i128 - 1), i32::MIN);
    assert_eq!(saturate(i128::MAX), i32::MAX);
}

#[test]
fn mul_div_rounds_toward_zero() {
    assert_eq!(mul_div(7, 3, 2), 10);
    assert_eq!(mul_div(-7, 3, 2), -10);
    assert_eq!(mul_div(7, -3, 2), -10);
    assert_eq!(mul_div(-7, -3, 2), 10);
    assert_eq!(mul_div(0, 5, 3), 0);
    assert_eq!(mul_div(60_000, 16_666_667, 1_000_000_000), 1_000);
}

#[test]
fn lerp_runs_from_start_to_end() {
    assert_eq!(lerp(10, 20, 0), 10);
    assert_eq!(lerp(10, 20, RATIO_ONE), 20);
    assert_eq!(lerp(10, 20, RATIO_ONE / 2), 15);
    assert_eq!(lerp(20, 10, RATIO_ONE / 2), 15);
    assert_eq!(lerp(10, 20, u32::MAX), 20);
    assert_eq!(lerp(0, 3, RATIO_ONE / 2), 1);
    assert_eq!(lerp(0, -3, RATIO_ONE / 2), -1);
    assert_eq!(lerp(i32::MIN, i32::MAX, RATIO_ONE), i32::MAX);
    assert_eq!(lerp(i32::MAX, i32::MIN, RATIO_ONE), i32::MIN);
}

#[test]
fn lerp_never_goes_back() {
    let mut last = lerp(-7_000, 12_345, 0);
    let mut ratio: u32 = 0;
    while ratio <= RATIO_ONE {
        let now = lerp(-7_000, 12_345, ratio);
        assert!(now >= last);
        assert!((-7_000..=12_345).contains(&now));
        last = now;
        ratio += 12_345_679;
    }
}

#[test]
fn vectors_add_and_subtract_with_saturation() {
    let a = Vec3::new(1, -2, 3);
    let b = Vec3::new(10, 20, -30);
    assert_eq!(a.plus(b), Vec3::new(11, 18, -27));
    assert_eq!(a.minus(b), Vec3::new(-9, -22, 33));
    assert_eq!(Vec3::new(i32::MAX, i32::MIN, 0).plus(Vec3::new(1, -1, 0)), Vec3::new(i32::MAX, i32::MIN, 0));
    assert_eq!(Vec3::new(i32::MIN, 0, 0).minus(Vec3::new(1, 0, 0)), Vec3::new(i32::MIN, 0, 0));
    assert_eq!(Vec3::zero(), Vec3::new(0, 0, 0));
    assert_eq!(Vec2::new(1, 2).plus(Vec2::new(-4, i32::MAX)), Vec2::new(-3, i32::MAX));
}

#[test]
fn distances_are_squared_exactly() {
    assert_eq!(Vec3::new(3, 4, 0).length_squared(), 25);
    assert_eq!(Vec3::new(1, 2, 3).distance_squared(Vec3::new(4, 6, 3)), 25);
    assert_eq!(
        Vec3::new(i32::MIN, i32::MIN, i32::MIN).distance_squared(Vec3::new(i32::MAX, i32::MAX, i32::MAX)),
        3 * 0xffff_ffffu128 * 0xffff_ffffu128
    );
}

#[test]
fn directions_have_the_length_asked_for() {
    assert_eq!(Vec3::new(3_000, 0, 4_000).with_length(5_000), Vec3::new(3_000, 0, 4_000));
    assert_eq!(Vec3::new(3_000, 0, 4_000).with_length(10_000), Vec3::new(6_000, 0, 8_000));
    assert_eq!(Vec3::new(-3, 0, 4).with_length(1_000), Vec3::new(-600, 0, 800));
    assert_eq!(Vec3::zero().with_length(1_000), Vec3::zero());
    assert_eq!(Vec3::new(0, 0, 7).with_length(-800), Vec3::new(0, 0, -800));
    assert_eq!(Vec3::new(-40_000, 0, 0).toward(Vec3::zero(), 800_000), Vec3::new(800_000, 0, 0));
    assert_eq!(Vec3::new(5, 5, 5).toward(Vec3::new(5, 5, 5), 800_000), Vec3::zero());
    // the shortest offsets give the full length too
    assert_eq!(Vec3::new(1, 1, 0).with_length(1_000), Vec3::new(707, 707, 0));
    assert_eq!(Vec3::new(1, 1, 0).with_length(800_000), Vec3::new(565_685, 565_685, 0));
    assert_eq!(Vec3::new(0, -1, 0).with_length(800_000), Vec3::new(0, -800_000, 0));
    assert_eq!(Vec3::new(1, 1, 1).with_length(i32::MAX), Vec3::new(1_239_850_261, 1_239_850_261, 1_239_850_261));
}

#[test]
fn directions_are_never_too_long() {
    let cases = [
        Vec3::new(1, 0, 0),
        Vec3::new(1, 1, 0),
        Vec3::new(-1, 1, -1),
        Vec3::new(1, 2, 3),
        Vec3::new(-40_222, 0, 724),
        Vec3::new(12_345, -6_789, 1),
        Vec3::new(i32::MAX, i32::MIN, i32::MAX),
    ];
    for v in cases {
        let d = v.with_length(800_000);
        assert!(d.length_squared() <= 800_000u128 * 800_000u128);
        assert!(d.length_squared() >= 799_995u128 * 799_995u128);
        assert!(d.x.signum() == v.x.signum() || d.x == 0);
        assert!(d.y.signum() == v.y.signum() || d.y == 0);
        assert!(d.z.signum() == v.z.signum() || d.z == 0);
    }
}

#[test]
fn rates_over_time() {
    assert_eq!(Vec3::new(60_000, -60_000, 1).over_time(16_666_667), Vec3::new(1_000, -1_000, 0));
    assert_eq!(Vec3::new(60_000, 0, 0).over_time(1_000_000_000), Vec3::new(60_000, 0, 0));
    assert_eq!(Vec3::new(60_000, 0, 0).over_time(0), Vec3::zero());
    assert_eq!(Vec3::new(i32::MAX, i32::MIN, 0).over_time(u64::MAX), Vec3::new(i32::MAX, i32::MIN, 0));
}

#[test]
fn vectors_scale_by_fixed_point_factors() {
    assert_eq!(Vec3::new(2_000, -4_000, 7).scaled(500), Vec3::new(1_000, -2_000, 3));
    assert_eq!(Vec3::new(2_000, -4_000, 7).scaled(-1_000), Vec3::new(-2_000, 4_000, -7));
    assert_eq!(Vec3::new(2_000, -4_000, 7).scaled(UNIT), Vec3::new(2_000, -4_000, 7));
}

#[test]
fn vectors_lerp_by_coordinate() {
    let a = Vec3::new(0, 100, -100);
    let b = Vec3::new(100, 0, 100);
    assert_eq!(a.lerp(b, 0), a);
    assert_eq!(a.lerp(b, RATIO_ONE), b);
    assert_eq!(a.lerp(b, RATIO_ONE / 4), Vec3::new(25, 75, -50));
}

#[test]
fn quaternions_turn_vectors() {
    let v = Vec3::new(1_000, 2_000, 3_000);
    assert_eq!(Quat::identity().rotated(v), v);
    // half a turn about z
    let half_z = Quat::new(0, 0, UNIT, 0);
    assert_eq!(half_z.rotated(v), Vec3::new(-1_000, -2_000, 3_000));
    // a quarter turn about y: x goes to -z, z goes to x
    let quarter_y = Quat::new(0, 707, 0, 707);
    let turned = quarter_y.rotated(Vec3::new(1_000, 0, 0));
    assert!(turned.x.abs() <= 1 && turned.y == 0 && (turned.z + 1_000).abs() <= 2);
    assert_eq!(Quat::identity(), Quat::new(0, 0, 0, UNIT));
}

#[test]
fn quaternions_multiply() {
    let half_z = Quat::new(0, 0, UNIT, 0);
    assert_eq!(Quat::identity().times(half_z), half_z);
    assert_eq!(half_z.times(Quat::identity()), half_z);
    // two half turns about z make a full turn: minus the identity
    assert_eq!(half_z.times(half_z), Quat::new(0, 0, 0, -UNIT));
    let half_x = Quat::new(UNIT, 0, 0, 0);
    assert_eq!(half_z.times(half_x), Quat::new(0, UNIT, 0, 0));
    assert_eq!(half_x.times(half_z), Quat::new(0, -UNIT, 0, 0));
}

#[test]
fn quaternions_blend_toward_the_nearer_form() {
    let start = Quat::new(0, 0, 0, UNIT);
    let end = Quat::new(0, 600, 0, 800);
    assert_eq!(start.lerp(end, 0), start);
    assert_eq!(start.lerp(end, RATIO_ONE), end);
    assert_eq!(start.lerp(end, RATIO_ONE / 2), Quat::new(0, 300, 0, 900));
    let far = Quat::new(0, -600, 0, -800);
    assert_eq!(start.lerp(far, RATIO_ONE), end);
}

#[test]
fn stopwatch_counts_and_saturates() {
    let mut watch = Stopwatch::new();
    assert_eq!(watch.elapsed, 0);
    watch.tick(5);
    watch.tick(7);
    assert_eq!(watch.elapsed, 12);
    watch.tick(u64::MAX);
    assert_eq!(watch.elapsed, u64::MAX);
    watch.reset();
    assert_eq!(watch.elapsed, 0);
}

#[test]
fn timer_that_runs_once() {
    let mut t = Timer::new(10_000_000_000, TimerMode::Once);
    t.tick(250_000_000);
    assert_eq!(t.elapsed, 250_000_000);
    assert!(!t.finished());
    assert!(!t.just_finished());
    assert_eq!(t.times_finished_this_tick, 0);
    assert_eq!(t.fraction(), 25_000_000);
    assert_eq!(t.fraction_remaining(), 975_000_000);
    t.tick(500_000_000_000);
    assert_eq!(t.elapsed, 10_000_000_000);
    assert!(t.finished());
    assert!(t.just_finished());
    assert_eq!(t.times_finished_this_tick, 1);
    assert_eq!(t.fraction(), RATIO_ONE);
    assert_eq!(t.fraction_remaining(), 0);
    t.tick(1_000_000_000);
    assert_eq!(t.elapsed, 10_000_000_000);
    assert!(t.finished());
    assert!(!t.just_finished());
    assert_eq!(t.times_finished_this_tick, 0);
    t.reset();
    assert_eq!(t, Timer::new(10_000_000_000, TimerMode::Once));
}

#[test]
fn timer_that_repeats() {
    let mut t = Timer::new(2_000_000_000, TimerMode::Repeating);
    t.tick(750_000_000);
    assert_eq!(t.elapsed, 750_000_000);
    assert!(!t.finished());
    assert!(!t.just_finished());
    assert_eq!(t.fraction(), 375_000_000);
    t.tick(1_500_000_000);
    assert_eq!(t.elapsed, 250_000_000);
    assert!(t.finished());
    assert!(t.just_finished());
    assert_eq!(t.times_finished_this_tick, 1);
    t.tick(1_000_000_000);
    assert_eq!(t.elapsed, 1_250_000_000);
    assert!(!t.finished());
    assert!(!t.just_finished());
    t.tick(7_000_000_000);
    assert_eq!(t.elapsed, 250_000_000);
    assert_eq!(t.times_finished_this_tick, 4);
}

#[test]
fn timer_of_no_duration() {
    let mut t = Timer::new(0, TimerMode::Repeating);
    t.tick(1);
    assert!(t.just_finished());
    assert_eq!(t.times_finished_this_tick, u32::MAX);
    assert_eq!(t.elapsed, 0);
    assert_eq!(t.fraction(), RATIO_ONE);
    let mut once = Timer::new(0, TimerMode::Once);
    once.tick(0);
    assert!(once.just_finished());
    once.tick(0);
    assert!(!once.just_finished());
    assert!(once.finished());
}

#[test]
fn timer_set_to_its_end_finishes_on_the_next_tick() {
    let mut t = Timer::new(1_500_000_000, TimerMode::Once);
    t.set_elapsed(1_500_000_000);
    assert!(!t.finished());
    t.tick(1);
    assert!(t.just_finished());
    let mut r = Timer::new(1_700_000_000, TimerMode::Repeating);
    r.tick(1_000_000_000);
    r.set_duration(500_000_000);
    r.tick(0);
    assert!(r.just_finished());
    assert_eq!(r.times_finished_this_tick, 2);
    assert_eq!(r.elapsed, 0);
}
