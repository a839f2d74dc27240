[package]
name = "imu_calib_ros"
version = "0.1.0"
edition = "2021"
publish = false

[dependencies]
futures-lite = "=2.6.1"
r2r = "=0.9.7"
