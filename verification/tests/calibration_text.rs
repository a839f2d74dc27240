use imu_calib_ros::error::PersistenceError;
use imu_calib_ros::model::{AccelCorrection, CalibrationModel, Sample};
use imu_calib_ros::text::{parse, to_text, FIELDS};
use imu_calib_ros::vector::{Mat3, Vec3};

const DEFAULT_TEXT: &str = "gyro_bias = [0, 0, 0]\naccel_bias = [0, 0, 0]\naccel_scale = [1000000, 0, 0, 0, 1000000, 0, 0, 0, 1000000]\ngravity = [9806650]\n";

fn fitted() -> CalibrationModel {
    CalibrationModel {
        gyro_bias: Vec3::new(10_000, -20_000, 30_000),
        accel: AccelCorrection {
            bias: Vec3::new(-123, 0, 456_789),
            scale: Mat3::new(
                Vec3::new(1_002_003, -4_005, 6),
                Vec3::new(7, 998_877, -10),
                Vec3::new(-2_147_483_648, 2_147_483_647, 1_000_000),
            ),
        },
        gravity: 9_812_345,
    }
}

#[test]
fn a_text_holds_sixteen_numbers() {
    assert_eq!(FIELDS, 16);
}

#[test]
fn text_of_the_default_model() {
    let text = to_text(&CalibrationModel::default());
    assert_eq!(String::from_utf8(text).unwrap(), DEFAULT_TEXT);
}

#[test]
fn text_of_a_fitted_model() {
    let text = to_text(&fitted());
    let expected = "gyro_bias = [10000, -20000, 30000]\naccel_bias = [-123, 0, 456789]\naccel_scale = [1002003, -4005, 6, 7, 998877, -10, -2147483648, 2147483647, 1000000]\ngravity = [9812345]\n";
    assert_eq!(String::from_utf8(text).unwrap(), expected);
}

#[test]
fn default_text_reads_as_the_default_model() {
    assert_eq!(parse(DEFAULT_TEXT.as_bytes()), Ok(CalibrationModel::default()));
}

#[test]
fn writing_and_reading_back_yields_the_same_model() {
    let mut models = vec![CalibrationModel::default(), fitted()];
    let mut m = fitted();
    m.gyro_bias = Vec3::new(i32::MIN, i32::MAX, -1);
    m.accel.bias = Vec3::new(9, 10, 99);
    m.gravity = i32::MAX;
    models.push(m);
    m.gravity = 1;
    m.accel.scale = Mat3::diagonal(-1);
    models.push(m);
    for m in models.iter() {
        assert!(m.is_valid());
        assert_eq!(parse(&to_text(m)), Ok(*m));
    }
}

#[test]
fn writing_and_reading_back_yields_the_same_corrected_output() {
    let m = fitted();
    let back = parse(&to_text(&m)).unwrap();
    let raws = [
        Sample::new(Vec3::new(0, 0, 0), Vec3::new(0, 0, 0)),
        Sample::new(Vec3::new(20_000, 20_000, 30_000), Vec3::new(0, 0, 9_800_000)),
        Sample::new(Vec3::new(-1, 2, -3), Vec3::new(9_806_650, -9_806_650, 1)),
        Sample::new(Vec3::new(i32::MAX, i32::MIN, 0), Vec3::new(i32::MIN, i32::MAX, 5)),
    ];
    for raw in raws.iter() {
        assert_eq!(back.correct(*raw), m.correct(*raw));
    }
}

#[test]
fn a_model_that_breaks_an_invariant_is_read_as_invalid() {
    let mut m = CalibrationModel::default();
    m.gravity = 0;
    assert_eq!(parse(&to_text(&m)), Err(PersistenceError::InvalidModel));
    m.gravity = -9_806_650;
    assert_eq!(parse(&to_text(&m)), Err(PersistenceError::InvalidModel));
    let mut s = CalibrationModel::default();
    s.accel.scale = Mat3::diagonal(0);
    assert_eq!(parse(&to_text(&s)), Err(PersistenceError::InvalidModel));
}

fn malformed(text: &str) {
    assert_eq!(parse(text.as_bytes()), Err(PersistenceError::Malformed), "{:?}", text);
}

#[test]
fn text_off_the_layout_is_malformed() {
    malformed("");
    malformed("gyro_bias = [0, 0, 0]\n");
    malformed(&DEFAULT_TEXT[..DEFAULT_TEXT.len() - 1]);
    malformed(&format!("{}\n", DEFAULT_TEXT));
    malformed(&format!(" {}", DEFAULT_TEXT));
    malformed(&DEFAULT_TEXT.replace(", ", ","));
    malformed(&DEFAULT_TEXT.replace("gravity", "Gravity"));
    malformed(&DEFAULT_TEXT.replace("\n", "\r\n"));
    malformed(&DEFAULT_TEXT.replace("accel_bias = [0, 0, 0]", "accel_bias = [0, 0]"));
    malformed(&DEFAULT_TEXT.replace("accel_bias = [0, 0, 0]", "accel_bias = [0, 0, 0, 0]"));
    malformed(&DEFAULT_TEXT.replace("gyro_bias = [0, 0, 0]\n", ""));
    malformed("SM = [1, 0, 0, 0, 1, 0, 0, 0, 1, ]\nbias = [0, 0, 0, ]\n");
}

#[test]
fn numbers_off_the_layout_are_malformed() {
    malformed(&DEFAULT_TEXT.replace("[9806650]", "[09806650]"));
    malformed(&DEFAULT_TEXT.replace("[9806650]", "[+9806650]"));
    malformed(&DEFAULT_TEXT.replace("[9806650]", "[9806650.0]"));
    malformed(&DEFAULT_TEXT.replace("[9806650]", "[9.80665]"));
    malformed(&DEFAULT_TEXT.replace("[9806650]", "[]"));
    malformed(&DEFAULT_TEXT.replace("[9806650]", "[-]"));
    malformed(&DEFAULT_TEXT.replace("[9806650]", "[2147483648]"));
    malformed(&DEFAULT_TEXT.replace("[9806650]", "[99999999999999999999999999]"));
    malformed(&DEFAULT_TEXT.replace("gyro_bias = [0,", "gyro_bias = [-0,"));
    malformed(&DEFAULT_TEXT.replace("gyro_bias = [0,", "gyro_bias = [-2147483649,"));
    malformed(&DEFAULT_TEXT.replace("gyro_bias = [0,", "gyro_bias = [0x10,"));
    malformed(&DEFAULT_TEXT.replace("gyro_bias = [0,", "gyro_bias = [1e3,"));
}

#[test]
fn numbers_at_the_ends_of_the_range_are_read() {
    let text = DEFAULT_TEXT.replace("gyro_bias = [0, 0, 0]", "gyro_bias = [-2147483648, 2147483647, -1]");
    let m = parse(text.as_bytes()).unwrap();
    assert_eq!(m.gyro_bias, Vec3::new(i32::MIN, i32::MAX, -1));
    assert_eq!(m.accel, AccelCorrection::identity());
    assert_eq!(m.gravity, 9_806_650);
}
