[package]
name = "bare_king"
version = "0.1.0"
edition = "2021"
publish = false

[dependencies]
rand = "0.8"
macroquad = "0.3"
image = { version = "0.24", default-features = false, features = ["ico"] }
savefile = "*"
savefile-derive = "*"
strum = "0.17"
strum_macros = "0.17"
