[package]
name = "stage_sim"
version = "0.1.0"
edition = "2021"
publish = false

[dependencies]
hecs = "=0.2.15"
