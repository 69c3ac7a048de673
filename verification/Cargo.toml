[package]
name = "appjs"
version = "0.1.0"
edition = "2021"
publish = false

[dependencies]
deno_error = "0.7.3"
reqwest = { version = "0.13.5", default-features = false }
serde = { version = "1.0.229", features = ["derive"] }
sys_traits = "0.1.29"
tokio = { version = "1.54.1", features = ["rt", "macros"] }
