use imu_calib_ros::error::ConfigurationError;
use imu_calib_ros::gyro::GyroBiasEstimator;
use imu_calib_ros::vector::Vec3;

fn estimator(window: usize) -> GyroBiasEstimator {
    match GyroBiasEstimator::new(window) {
        Ok(e) => e,
        Err(_) => panic!("a window of {} samples was refused", window),
    }
}

#[test]
fn window_of_no_samples_is_refused() {
    assert!(matches!(
        GyroBiasEstimator::new(0),
        Err(ConfigurationError::NonPositiveSampleCount)
    ));
}

#[test]
fn fresh_estimator_has_no_bias() {
    let e = estimator(100);
    assert_eq!(e.window(), 100);
    assert_eq!(e.count(), 0);
    assert!(!e.is_ready());
    assert_eq!(e.bias(), None);
}

#[test]
fn identical_stationary_samples_yield_their_value() {
    let v = Vec3::new(10_000, 20_000, 30_000);
    for n in [1usize, 2, 3, 7, 100] {
        let mut e = estimator(n);
        for i in 0..n {
            assert_eq!(e.bias(), None);
            let ready = e.push(v);
            assert_eq!(ready, i + 1 == n);
        }
        assert!(e.is_ready());
        assert_eq!(e.count(), n);
        assert_eq!(e.bias(), Some(v));
    }
}

#[test]
fn identical_negative_samples_yield_their_value() {
    let v = Vec3::new(-1, i32::MIN, i32::MAX);
    let mut e = estimator(9);
    for _ in 0..9 {
        e.push(v);
    }
    assert_eq!(e.bias(), Some(v));
}

#[test]
fn samples_with_known_mean_yield_that_mean() {
    let mut e = estimator(4);
    e.push(Vec3::new(10, 100, -40));
    e.push(Vec3::new(20, 200, -30));
    e.push(Vec3::new(30, 300, -20));
    assert_eq!(e.bias(), None);
    assert!(e.push(Vec3::new(40, 400, -10)));
    assert_eq!(e.bias(), Some(Vec3::new(25, 250, -25)));
}

#[test]
fn bias_rounds_towards_minus_infinity() {
    let mut e = estimator(2);
    e.push(Vec3::new(1, -1, 0));
    e.push(Vec3::new(2, -2, 1));
    assert_eq!(e.bias(), Some(Vec3::new(1, -2, 0)));
}

#[test]
fn bias_does_not_depend_on_arrival_order() {
    let readings = [
        Vec3::new(12, -7, 300),
        Vec3::new(-5, 44, 1),
        Vec3::new(9, 9, -9),
        Vec3::new(1_000, -2_000, 3),
        Vec3::new(0, 0, 0),
    ];
    let orders: [[usize; 5]; 4] = [[0, 1, 2, 3, 4], [4, 3, 2, 1, 0], [2, 0, 4, 1, 3], [1, 3, 0, 4, 2]];
    let mut results = Vec::new();
    for order in orders.iter() {
        let mut e = estimator(5);
        for i in order.iter() {
            e.push(readings[*i]);
        }
        results.push(e.bias());
    }
    // sums 1016, -1954, 295 over 5
    assert_eq!(results[0], Some(Vec3::new(203, -391, 59)));
    for r in results.iter() {
        assert_eq!(*r, results[0]);
    }
}

#[test]
fn samples_after_the_window_are_passed_over() {
    let mut e = estimator(2);
    e.push(Vec3::new(2, 2, 2));
    e.push(Vec3::new(4, 4, 4));
    assert_eq!(e.bias(), Some(Vec3::new(3, 3, 3)));
    assert!(e.push(Vec3::new(1_000, 1_000, 1_000)));
    assert_eq!(e.count(), 2);
    assert_eq!(e.bias(), Some(Vec3::new(3, 3, 3)));
}
