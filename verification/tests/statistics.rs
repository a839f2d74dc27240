use imu_calib_ros::stats::Accumulator;
use imu_calib_ros::vector::Vec3;

#[test]
fn empty_accumulator_has_zero_mean() {
    let acc = Accumulator::new();
    assert_eq!(acc.len(), 0);
    assert_eq!(acc.mean(), Vec3::new(0, 0, 0));
}

#[test]
fn mean_of_one_reading_is_that_reading() {
    let mut acc = Accumulator::new();
    acc.push(Vec3::new(5, -6, 7));
    assert_eq!(acc.len(), 1);
    assert_eq!(acc.mean(), Vec3::new(5, -6, 7));
}

#[test]
fn mean_rounds_towards_minus_infinity() {
    let mut acc = Accumulator::new();
    acc.push(Vec3::new(1, -1, 3));
    acc.push(Vec3::new(2, -2, 4));
    // sums 3, -3, 7 over 2
    assert_eq!(acc.mean(), Vec3::new(1, -2, 3));
}

#[test]
fn mean_of_extreme_readings_stays_in_range() {
    let mut acc = Accumulator::new();
    for _ in 0..1000 {
        acc.push(Vec3::new(i32::MAX, i32::MIN, i32::MAX));
    }
    assert_eq!(acc.len(), 1000);
    assert_eq!(acc.mean(), Vec3::new(i32::MAX, i32::MIN, i32::MAX));
}

#[test]
fn clear_forgets_the_readings() {
    let mut acc = Accumulator::new();
    acc.push(Vec3::new(10, 20, 30));
    acc.push(Vec3::new(30, 40, 50));
    assert_eq!(acc.mean(), Vec3::new(20, 30, 40));
    acc.clear();
    assert_eq!(acc.len(), 0);
    assert_eq!(acc.mean(), Vec3::new(0, 0, 0));
    acc.push(Vec3::new(-4, -4, -4));
    assert_eq!(acc.mean(), Vec3::new(-4, -4, -4));
}

#[test]
fn mean_does_not_depend_on_the_order() {
    let readings = [Vec3::new(3, 1, -9), Vec3::new(-8, 4, 2), Vec3::new(7, 7, 7), Vec3::new(0, -5, 1)];
    let mut forward = Accumulator::new();
    for r in readings.iter() {
        forward.push(*r);
    }
    let mut backward = Accumulator::new();
    for r in readings.iter().rev() {
        backward.push(*r);
    }
    assert_eq!(forward.mean(), backward.mean());
    // sums 2, 7, 1 over 4
    assert_eq!(forward.mean(), Vec3::new(0, 1, 0));
}
