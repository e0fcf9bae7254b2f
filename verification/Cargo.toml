[package]
name = "hook_events"
version = "0.1.0"
edition = "2021"
publish = false

[dependencies]
serde_json = "1"
serde_path_to_error = "0.1"
