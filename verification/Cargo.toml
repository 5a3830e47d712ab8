[package]
name = "pulp_os"
version = "0.1.0"
edition = "2021"
publish = false

[dependencies]
embedded-graphics = "0.8"
embassy-futures = "0.1"
embassy-time = "0.5"
log = "0.4"
static_cell = "2"
