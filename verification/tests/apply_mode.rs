use imu_calib_ros::apply::{ApplyState, CalibrationApplication, Params};
use imu_calib_ros::error::{ConfigurationError, PersistenceError};
use imu_calib_ros::model::{AccelCorrection, CalibrationModel, Sample, STANDARD_GRAVITY};
use imu_calib_ros::text::to_text;
use imu_calib_ros::vector::{Mat3, Vec3};

fn sample(g: (i32, i32, i32), a: (i32, i32, i32)) -> Sample {
    Sample::new(Vec3::new(g.0, g.1, g.2), Vec3::new(a.0, a.1, a.2))
}

fn stored() -> CalibrationModel {
    CalibrationModel {
        gyro_bias: Vec3::new(1_000, 2_000, 3_000),
        accel: AccelCorrection {
            bias: Vec3::new(100_000, 0, -100_000),
            scale: Mat3::diagonal(2_000_000),
        },
        gravity: 9_800_000,
    }
}

fn started(
    calibrate_gyros: bool,
    samples: usize,
    text: Option<&[u8]>,
    gravity: i32,
) -> CalibrationApplication {
    match CalibrationApplication::create(calibrate_gyros, samples, text, gravity) {
        Ok(app) => app,
        Err(e) => panic!("refused: {}", e.message()),
    }
}

#[test]
fn default_tunables_of_apply_mode() {
    let p = Params::default();
    assert_eq!(p.calib_file, "calib.txt");
    assert!(p.calibrate_gyros);
    assert_eq!(p.gyro_calib_samples, 100);
    assert_eq!(p.gravity, 9_806_650);
}

#[test]
fn warm_up_of_three_samples_then_bias_is_subtracted() {
    let mut app = started(true, 3, None, STANDARD_GRAVITY);
    assert_eq!(app.state(), ApplyState::WarmingUp);
    let still = sample((10_000, 20_000, 30_000), (0, 0, 9_800_000));
    assert_eq!(app.imu_callback(still), None);
    assert_eq!(app.state(), ApplyState::WarmingUp);
    assert_eq!(app.imu_callback(still), None);
    assert_eq!(app.state(), ApplyState::WarmingUp);
    assert_eq!(app.imu_callback(still), None);
    assert_eq!(app.state(), ApplyState::Ready);
    assert_eq!(app.model().gyro_bias, Vec3::new(10_000, 20_000, 30_000));
    let out = app.imu_callback(sample((20_000, 20_000, 30_000), (0, 0, 9_800_000)));
    assert_eq!(out, Some(sample((10_000, 0, 0), (0, 0, 9_800_000))));
    assert_eq!(app.state(), ApplyState::Ready);
}

#[test]
fn every_sample_after_warm_up_is_corrected() {
    let mut app = started(true, 2, None, STANDARD_GRAVITY);
    assert_eq!(app.imu_callback(sample((10, 20, 30), (1, 2, 3))), None);
    assert_eq!(app.imu_callback(sample((30, 40, 51), (4, 5, 6))), None);
    // the mean of the window, rounded down
    assert_eq!(app.model().gyro_bias, Vec3::new(20, 30, 40));
    for i in 0..50 {
        let raw = sample((i, 2 * i, -i), (i, i, i));
        assert_eq!(
            app.imu_callback(raw),
            Some(sample((i - 20, 2 * i - 30, -i - 40), (i, i, i)))
        );
    }
    assert_eq!(app.model().gyro_bias, Vec3::new(20, 30, 40));
}

#[test]
fn without_gyro_calibration_the_application_is_ready_at_once() {
    let text = to_text(&stored());
    let mut app = started(false, 100, Some(&text), STANDARD_GRAVITY);
    assert_eq!(app.state(), ApplyState::Ready);
    assert_eq!(app.load_error(), None);
    assert_eq!(app.model(), stored());
    let out = app.imu_callback(sample((1_000, 2_000, 3_500), (600_000, 0, 0)));
    assert_eq!(out, Some(sample((0, 0, 500), (1_000_000, 0, 200_000))));
}

#[test]
fn warm_up_replaces_the_stored_gyro_bias_only() {
    let text = to_text(&stored());
    let mut app = started(true, 1, Some(&text), STANDARD_GRAVITY);
    assert_eq!(app.state(), ApplyState::WarmingUp);
    assert_eq!(app.model(), stored());
    assert_eq!(app.imu_callback(sample((-5, -6, -7), (0, 0, 0))), None);
    let mut expected = stored();
    expected.gyro_bias = Vec3::new(-5, -6, -7);
    assert_eq!(app.model(), expected);
    assert_eq!(
        app.imu_callback(sample((0, 0, 0), (100_000, 500_000, -100_000))),
        Some(sample((5, 6, 7), (0, 1_000_000, 0)))
    );
}

#[test]
fn a_missing_text_falls_back_to_the_uncalibrated_model() {
    let mut app = started(false, 0, None, 9_810_000);
    assert_eq!(app.load_error(), Some(PersistenceError::Unavailable));
    assert_eq!(app.model(), CalibrationModel::uncalibrated(9_810_000));
    let raw = sample((1, 2, 3), (4, 5, 6));
    assert_eq!(app.imu_callback(raw), Some(raw));
}

#[test]
fn a_malformed_text_falls_back_to_the_uncalibrated_model() {
    let app = started(false, 0, Some("SM = [1, 0, 0]".as_bytes()), STANDARD_GRAVITY);
    assert_eq!(app.load_error(), Some(PersistenceError::Malformed));
    assert_eq!(app.model(), CalibrationModel::default());
}

#[test]
fn an_invalid_stored_model_falls_back_to_the_uncalibrated_model() {
    let mut bad = stored();
    bad.accel.scale = Mat3::diagonal(0);
    let text = to_text(&bad);
    let app = started(true, 5, Some(&text), STANDARD_GRAVITY);
    assert_eq!(app.load_error(), Some(PersistenceError::InvalidModel));
    assert_eq!(app.model(), CalibrationModel::default());
    assert_eq!(app.state(), ApplyState::WarmingUp);
}

#[test]
fn gravity_that_is_not_positive_is_refused() {
    for g in [0, -1, i32::MIN] {
        assert!(matches!(
            CalibrationApplication::create(true, 100, None, g),
            Err(ConfigurationError::NonPositiveGravity)
        ));
        assert!(matches!(
            CalibrationApplication::create(false, 0, None, g),
            Err(ConfigurationError::NonPositiveGravity)
        ));
        assert!(matches!(
            CalibrationApplication::create(true, 0, None, g),
            Err(ConfigurationError::NonPositiveGravity)
        ));
    }
}

#[test]
fn a_warm_up_window_of_no_samples_is_refused() {
    assert!(matches!(
        CalibrationApplication::create(true, 0, None, STANDARD_GRAVITY),
        Err(ConfigurationError::NonPositiveSampleCount)
    ));
    assert!(CalibrationApplication::create(false, 0, None, STANDARD_GRAVITY).is_ok());
}

#[test]
fn application_from_the_default_tunables_warms_up_for_a_hundred_samples() {
    let mut app = match CalibrationApplication::from_params(&Params::default(), None) {
        Ok(app) => app,
        Err(e) => panic!("refused: {}", e.message()),
    };
    let still = sample((7, 7, 7), (0, 0, 9_806_650));
    for _ in 0..100 {
        assert_eq!(app.state(), ApplyState::WarmingUp);
        assert_eq!(app.imu_callback(still), None);
    }
    assert_eq!(app.state(), ApplyState::Ready);
    assert_eq!(app.imu_callback(still), Some(sample((0, 0, 0), (0, 0, 9_806_650))));
}

#[test]
fn tunables_with_a_negative_sample_count_are_refused() {
    let mut p = Params::default();
    p.gyro_calib_samples = -1;
    assert!(matches!(
        CalibrationApplication::from_params(&p, None),
        Err(ConfigurationError::NonPositiveSampleCount)
    ));
    p.gyro_calib_samples = 0;
    assert!(matches!(
        CalibrationApplication::from_params(&p, None),
        Err(ConfigurationError::NonPositiveSampleCount)
    ));
    p.calibrate_gyros = false;
    assert!(CalibrationApplication::from_params(&p, None).is_ok());
    p.gravity = 0;
    assert!(matches!(
        CalibrationApplication::from_params(&p, None),
        Err(ConfigurationError::NonPositiveGravity)
    ));
}
