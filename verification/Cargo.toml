[package]
name = "canvas_trace"
version = "0.1.0"
edition = "2021"
publish = false

[dependencies]
config = { version = "0.13", default-features = false, features = ["toml"] }
env_logger = "0.10"
log = "0.4"
rayon = "1"
serde = { version = "1", features = ["derive"] }
time = { version = "0.3", features = ["macros", "parsing", "serde"] }

[dev-dependencies]
nom = "7"
