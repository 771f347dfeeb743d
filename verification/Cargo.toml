[package]
name = "home_menu_extdata"
version = "0.1.0"
edition = "2021"
publish = false

[dependencies]
anyhow = "1"
static_assertions = "1"
