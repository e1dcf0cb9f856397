[package]
name = "pit_crew"
version = "0.12.2"
edition = "2021"
publish = false

[dependencies]
anyhow = "=1.0.104"
async-trait = "=0.1.92"
serde = "=1.0.229"
serde_json = { version = "=1.0.154", features = ["preserve_order"] }
sha2 = "=0.10.9"
tokio = { version = "=1.54.1", features = ["fs", "macros", "process", "rt-multi-thread"] }
toml = "=1.1.8"
wasmparser = "=0.263.0"
