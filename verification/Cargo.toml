[package]
name = "xcontext"
version = "0.1.0"
edition = "2021"
publish = false

[dependencies]
anyhow = "1"
byte-unit = "5"
chrono = { version = "0.4", features = ["serde"] }
clap = { version = "4", features = ["derive"] }
clap_complete = "4"
clearscreen = "*"
colored = "2"
comfy-table = "7"
dirs = "5"
env_logger = "0.11"
glob = "0.3"
globset = "0.4"
ignore = "0.4"
indexmap = { version = "2", features = ["serde"] }
log = "0.4"
notify = "6"
notify-debouncer-mini = "0.4"
parse_duration = "2"
pathdiff = "0.2"
quick-xml = { version = "*", features = ["serialize"] }
rayon = "1"
serde = { version = "1", features = ["derive"] }
serde_json = "1"
serde_yml = "*"
shellexpand = "3"
sysinfo = "0.30"
thiserror = "1"
tiktoken-rs = "*"
toml = "0.8"
walkdir = "2"
