[package]
name = "haxby"
version = "0.1.0"
edition = "2021"
publish = false

[dependencies]
unicode_categories = "0.1"
regex = "1"
clap = { version = "4", features = ["derive"] }
glob = "0.3"
rayon = "1"
once_cell = "1"
reqwest = { version = "0.12", default-features = false, features = ["blocking"] }
