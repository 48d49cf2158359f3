[package]
name = "video_player_console_r"
version = "0.1.0"
edition = "2021"
publish = false

[dependencies]
console = "0.15"
image = { version = "0.24", default-features = false, features = ["png"] }
rand = "0.8"
rodio = { version = "0.17", default-features = false, features = ["mp3"] }
term_size = "0.3"
