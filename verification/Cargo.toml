[package]
name = "bevellm"
version = "0.1.0"
edition = "2021"
publish = false

[dependencies]
serde_json = "=1.0.154"
serde = { version = "=1.0.229", features = ["derive"] }
schemars = "=0.8.22"
bevy_app = "0.16"
bevy_ecs = "0.16"
crossbeam-channel = "=0.5.17"
log = "=0.4.35"
thiserror = "=2.0.21"
tokio = { version = "=1.54.1", features = ["rt", "rt-multi-thread"] }
proc-macro2 = "=1.0.107"
quote = "=1.0.47"
syn = { version = "=2.0.119", features = ["full"] }
rig-core = { version = "=0.37.0", default-features = false }
