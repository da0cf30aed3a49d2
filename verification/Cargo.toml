[package]
name = "cell_sim"
version = "0.1.0"
edition = "2021"
publish = false

[dependencies]
bevy = { version = "=0.11.3", default-features = false }
bevy_quinnet = "=0.5.0"
bevy_rapier2d = { version = "=0.22.0", default-features = false, features = ["dim2", "headless"] }
ndarray = "=0.15.6"
ndarray-rand = "=0.14.0"
rand = "=0.8.8"
rand_distr = "=0.4.3"
serde = { version = "=1.0.229", features = ["derive"] }
tokio-util = "=0.7.19"
