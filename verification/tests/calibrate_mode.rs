use imu_calib_ros::calibrate::{CalibrateProcess, Params, ProcessState};
use imu_calib_ros::error::{CalibrationError, ConfigurationError};
use imu_calib_ros::model::{AccelCorrection, CalibrationModel, Sample};
use imu_calib_ros::text::parse;
use imu_calib_ros::vector::{Mat3, Vec3};

const G: i32 = 9_806_650;

fn process(batch: usize, gravity: i32) -> CalibrateProcess {
    match CalibrateProcess::new(batch, gravity) {
        Ok(p) => p,
        Err(e) => panic!("refused: {}", e.message()),
    }
}

fn face(k: usize, g: i32) -> Vec3 {
    match k {
        0 => Vec3::new(g, 0, 0),
        1 => Vec3::new(-g, 0, 0),
        2 => Vec3::new(0, g, 0),
        3 => Vec3::new(0, -g, 0),
        4 => Vec3::new(0, 0, g),
        _ => Vec3::new(0, 0, -g),
    }
}

fn raw(acceleration: Vec3) -> Sample {
    Sample::new(Vec3::new(1, 2, 3), acceleration)
}

#[test]
fn default_tunables_of_calibrate_mode() {
    let p = Params::default();
    assert_eq!(p.calib_file, "calib.txt");
    assert_eq!(p.gravity, 9_806_650);
    assert_eq!(p.measurements_per_orientation, 500);
}

#[test]
fn twelve_samples_in_six_orientations_complete_the_calibration() {
    let mut p = process(2, G);
    assert_eq!(p.state(), ProcessState::Collecting);
    let mut fed = 0;
    for k in 0..6 {
        for _ in 0..2 {
            assert!(!p.is_done());
            assert_eq!(p.calibration_text(), None);
            let state = p.imu_callback(raw(face(k, G)));
            fed += 1;
            if fed < 12 {
                assert_eq!(state, ProcessState::Collecting);
            } else {
                assert_eq!(state, ProcessState::Done);
            }
        }
    }
    assert!(p.is_done());
    assert_eq!(p.state(), ProcessState::Done);
    assert_eq!(p.orientations().len(), 6);
    for k in 0..6 {
        assert_eq!(p.orientations()[k], face(k, G));
    }
    let expected = CalibrationModel {
        gyro_bias: Vec3::new(0, 0, 0),
        accel: AccelCorrection::identity(),
        gravity: G,
    };
    assert_eq!(p.outcome(), Some(Ok(expected)));
    let text = p.calibration_text().unwrap();
    assert_eq!(
        String::from_utf8(text.clone()).unwrap(),
        "gyro_bias = [0, 0, 0]\naccel_bias = [0, 0, 0]\naccel_scale = [1000000, 0, 0, 0, 1000000, 0, 0, 0, 1000000]\ngravity = [9806650]\n"
    );
    assert_eq!(parse(&text), Ok(expected));
}

#[test]
fn the_model_holds_the_solved_correction_and_no_gyro_bias() {
    let mut p = process(3, 1_000_000);
    let bias = Vec3::new(100_000, -50_000, 25_000);
    let half = [500_000, 2_000_000, 1_000_000];
    for k in 0..6 {
        let f = face(k, half[k / 2]);
        let centre = Vec3::new(bias.x + f.x, bias.y + f.y, bias.z + f.z);
        // three samples around the centre of the batch
        p.imu_callback(raw(Vec3::new(centre.x - 7, centre.y + 1, centre.z)));
        p.imu_callback(raw(centre));
        p.imu_callback(raw(Vec3::new(centre.x + 7, centre.y - 1, centre.z)));
    }
    let expected = CalibrationModel {
        gyro_bias: Vec3::new(0, 0, 0),
        accel: AccelCorrection {
            bias,
            scale: Mat3::new(
                Vec3::new(2_000_000, 0, 0),
                Vec3::new(0, 500_000, 0),
                Vec3::new(0, 0, 1_000_000),
            ),
        },
        gravity: 1_000_000,
    };
    assert_eq!(p.state(), ProcessState::Done);
    assert_eq!(p.outcome(), Some(Ok(expected)));
    assert_eq!(p.gravity(), 1_000_000);
    assert_eq!(parse(&p.calibration_text().unwrap()), Ok(expected));
}

#[test]
fn orientations_that_cannot_be_solved_fail_the_calibration() {
    let mut p = process(2, G);
    for _ in 0..11 {
        assert_eq!(p.imu_callback(raw(Vec3::new(0, 0, G))), ProcessState::Collecting);
    }
    assert_eq!(p.imu_callback(raw(Vec3::new(0, 0, G))), ProcessState::Failed);
    assert!(p.is_done());
    assert_eq!(p.state(), ProcessState::Failed);
    assert_eq!(p.outcome(), Some(Err(CalibrationError::NonConvergent)));
    assert_eq!(p.calibration_text(), None);
}

#[test]
fn samples_are_passed_over_once_the_calibration_has_ended() {
    let mut p = process(1, G);
    for k in 0..6 {
        p.imu_callback(raw(face(k, G)));
    }
    let outcome = p.outcome();
    assert!(matches!(outcome, Some(Ok(_))));
    let before: Vec<Vec3> = p.orientations().clone();
    for _ in 0..5 {
        assert_eq!(p.imu_callback(raw(Vec3::new(5, 5, 5))), ProcessState::Done);
        assert_eq!(p.outcome(), outcome);
        assert_eq!(*p.orientations(), before);
    }
    let mut q = process(1, G);
    for _ in 0..6 {
        q.imu_callback(raw(Vec3::new(1, 1, 1)));
    }
    assert_eq!(q.state(), ProcessState::Failed);
    for k in 0..6 {
        assert_eq!(q.imu_callback(raw(face(k, G))), ProcessState::Failed);
    }
    assert_eq!(q.outcome(), Some(Err(CalibrationError::NonConvergent)));
}

#[test]
fn calibration_with_bad_tunables_is_refused() {
    assert!(matches!(
        CalibrateProcess::new(0, G),
        Err(ConfigurationError::NonPositiveSampleCount)
    ));
    assert!(matches!(CalibrateProcess::new(500, 0), Err(ConfigurationError::NonPositiveGravity)));
    assert!(matches!(CalibrateProcess::new(0, -5), Err(ConfigurationError::NonPositiveGravity)));
    let mut p = Params::default();
    assert!(CalibrateProcess::from_params(&p).is_ok());
    p.measurements_per_orientation = -500;
    assert!(matches!(
        CalibrateProcess::from_params(&p),
        Err(ConfigurationError::NonPositiveSampleCount)
    ));
    p.measurements_per_orientation = 0;
    assert!(matches!(
        CalibrateProcess::from_params(&p),
        Err(ConfigurationError::NonPositiveSampleCount)
    ));
    p.gravity = -1;
    assert!(matches!(
        CalibrateProcess::from_params(&p),
        Err(ConfigurationError::NonPositiveGravity)
    ));
}

#[test]
fn calibration_from_the_default_tunables_takes_three_thousand_samples() {
    let mut p = match CalibrateProcess::from_params(&Params::default()) {
        Ok(p) => p,
        Err(e) => panic!("refused: {}", e.message()),
    };
    for i in 0..2_999 {
        assert_eq!(p.imu_callback(raw(face(i / 500, G))), ProcessState::Collecting);
        assert_eq!(p.orientations().len(), (i + 1) / 500);
    }
    assert_eq!(p.imu_callback(raw(face(5, G))), ProcessState::Done);
    assert_eq!(p.orientations().len(), 6);
}
