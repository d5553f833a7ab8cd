[package]
name = "loaf_lang"
version = "0.1.0"
edition = "2021"
publish = false

[dependencies]
itertools = "0.10"
image = { version = "0.24", default-features = false, features = ["jpeg"] }
pest = "2"
pest_derive = "2"
