[package]
name = "rig_deepagents"
version = "0.1.0"
edition = "2021"
publish = false

[dependencies]
serde_json = "1"
async-trait = "0.1"
tracing = "0.1"
