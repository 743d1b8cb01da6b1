[package]
name = "hotcorners"
version = "0.1.0"
edition = "2021"
publish = false

[dependencies]
anyhow = "*"
confy = "*"
hyprland = "*"
serde = { version = "*", features = ["derive"] }
tokio = { version = "*", features = ["macros", "rt", "time"] }
