[package]
name = "nwp_regime_analyzer"
version = "0.1.0"
edition = "2021"
publish = false

[dependencies]
image = "*"
plotters = "*"
