use imu_calib_ros::fixed::ONE;
use imu_calib_ros::model::{AccelCorrection, CalibrationModel, Sample, STANDARD_GRAVITY};
use imu_calib_ros::vector::{Mat3, Vec3};

fn sample(g: (i32, i32, i32), a: (i32, i32, i32)) -> Sample {
    Sample::new(Vec3::new(g.0, g.1, g.2), Vec3::new(a.0, a.1, a.2))
}

#[test]
fn standard_gravity_in_millionths() {
    assert_eq!(STANDARD_GRAVITY, 9_806_650);
}

#[test]
fn default_model_is_uncalibrated_and_valid() {
    let m = CalibrationModel::default();
    assert_eq!(m.gyro_bias, Vec3::new(0, 0, 0));
    assert_eq!(m.accel.bias, Vec3::new(0, 0, 0));
    assert_eq!(m.accel.scale, Mat3::diagonal(1_000_000));
    assert_eq!(m.gravity, 9_806_650);
    assert!(m.is_valid());
    assert_eq!(m, CalibrationModel::uncalibrated(STANDARD_GRAVITY));
    assert_eq!(m.accel, AccelCorrection::identity());
}

#[test]
fn model_without_positive_gravity_is_invalid() {
    assert!(!CalibrationModel::uncalibrated(0).is_valid());
    assert!(!CalibrationModel::uncalibrated(-1).is_valid());
    assert!(CalibrationModel::uncalibrated(1).is_valid());
}

#[test]
fn model_with_degenerate_matrix_is_invalid() {
    let mut m = CalibrationModel::default();
    m.accel.scale = Mat3::new(Vec3::new(1, 2, 3), Vec3::new(2, 4, 6), Vec3::new(0, 0, 1));
    assert!(!m.is_valid());
    m.accel.scale = Mat3::diagonal(0);
    assert!(!m.is_valid());
    m.accel.scale = Mat3::diagonal(1);
    assert!(m.is_valid());
}

#[test]
fn uncalibrated_model_passes_samples_through() {
    let m = CalibrationModel::default();
    let raw = sample((10_000, -20_000, 30_000), (-1, 0, 9_800_000));
    assert_eq!(m.correct(raw), raw);
    let extreme = sample((i32::MIN, i32::MAX, 0), (i32::MAX, i32::MIN, -1));
    assert_eq!(m.correct(extreme), extreme);
}

#[test]
fn gyro_bias_is_subtracted() {
    let mut m = CalibrationModel::default();
    m.gyro_bias = Vec3::new(10_000, 20_000, 30_000);
    let out = m.correct(sample((20_000, 20_000, 30_000), (0, 0, 9_800_000)));
    assert_eq!(out.angular_velocity, Vec3::new(10_000, 0, 0));
    assert_eq!(out.linear_acceleration, Vec3::new(0, 0, 9_800_000));
}

#[test]
fn accel_is_scale_times_raw_minus_bias() {
    let mut m = CalibrationModel::default();
    m.accel = AccelCorrection {
        bias: Vec3::new(100_000, -200_000, 50_000),
        scale: Mat3::new(
            Vec3::new(2_000_000, 0, 0),
            Vec3::new(0, 500_000, 0),
            Vec3::new(10_000, 0, 1_000_000),
        ),
    };
    let out = m.correct(sample((0, 0, 0), (1_100_000, 0, 9_850_000)));
    // raw - bias = (1_000_000, 200_000, 9_800_000)
    assert_eq!(out.linear_acceleration, Vec3::new(2_000_000, 100_000, 9_810_000));
    assert_eq!(out.angular_velocity, Vec3::new(0, 0, 0));
    assert_eq!(m.accel.apply(Vec3::new(1_100_000, 0, 9_850_000)), out.linear_acceleration);
}

#[test]
fn bias_is_taken_off_before_scaling() {
    let c = AccelCorrection { bias: Vec3::new(1_000_000, 0, 0), scale: Mat3::diagonal(3 * ONE) };
    // 3 * (2 - 1) = 3, and not 3 * 2 - 1 = 5
    assert_eq!(c.apply(Vec3::new(2_000_000, 0, 0)), Vec3::new(3_000_000, 0, 0));
}

#[test]
fn cross_axis_terms_mix_the_components() {
    let c = AccelCorrection {
        bias: Vec3::new(0, 0, 0),
        scale: Mat3::new(
            Vec3::new(1_000_000, 500_000, 250_000),
            Vec3::new(-1_000_000, 1_000_000, 0),
            Vec3::new(0, 0, -2_000_000),
        ),
    };
    let out = c.apply(Vec3::new(4_000_000, 2_000_000, 8_000_000));
    assert_eq!(out, Vec3::new(7_000_000, -2_000_000, -16_000_000));
}

#[test]
fn accel_rounds_towards_minus_infinity() {
    let c = AccelCorrection {
        bias: Vec3::new(0, 0, 0),
        scale: Mat3::new(Vec3::new(1, 0, 0), Vec3::new(0, 500_000, 0), Vec3::new(0, 0, 1_500_000)),
    };
    // x: 1 * -1 / 10^6 -> -1;  y: 500_000 * -3 / 10^6 = -1.5 -> -2;  z: 1.5 * 3 = 4.5 -> 4
    assert_eq!(c.apply(Vec3::new(-1, -3, 3)), Vec3::new(-1, -2, 4));
    assert_eq!(c.apply(Vec3::new(1, 3, -3)), Vec3::new(0, 1, -5));
}

#[test]
fn results_saturate_at_the_ends_of_the_range() {
    let mut m = CalibrationModel::default();
    m.gyro_bias = Vec3::new(i32::MIN, i32::MAX, 1);
    m.accel = AccelCorrection {
        bias: Vec3::new(i32::MIN, i32::MAX, 0),
        scale: Mat3::diagonal(i32::MAX),
    };
    let out = m.correct(sample((i32::MAX, i32::MIN, i32::MIN), (i32::MAX, i32::MIN, 0)));
    assert_eq!(out.angular_velocity, Vec3::new(i32::MAX, i32::MIN, i32::MIN));
    assert_eq!(out.linear_acceleration, Vec3::new(i32::MAX, i32::MIN, 0));
}

#[test]
fn same_model_and_sample_give_the_same_output() {
    let mut m = CalibrationModel::default();
    m.gyro_bias = Vec3::new(7, 8, 9);
    m.accel.bias = Vec3::new(-3, 2, 1);
    let raws = [
        sample((1, 2, 3), (4, 5, 6)),
        sample((-100, 200, -300), (9_806_650, 0, 0)),
        sample((0, 0, 0), (0, 0, 0)),
    ];
    for raw in raws.iter() {
        let out = m.correct(*raw);
        assert_eq!(out, m.correct(*raw));
        assert_eq!(
            out.angular_velocity,
            Vec3::new(
                raw.angular_velocity.x - 7,
                raw.angular_velocity.y - 8,
                raw.angular_velocity.z - 9
            )
        );
        assert_eq!(
            out.linear_acceleration,
            Vec3::new(
                raw.linear_acceleration.x + 3,
                raw.linear_acceleration.y - 2,
                raw.linear_acceleration.z - 1
            )
        );
    }
}
