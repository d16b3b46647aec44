[package]
name = "evtxanalyze"
version = "0.1.0"
edition = "2021"
publish = false

[dependencies]
anyhow = "1"
chrono = "0.4"
clap = { version = "4", features = ["derive"] }
clap-verbosity-flag = "*"
colored = "*"
colored_json = "*"
csv = "1"
evtx = "*"
log = "0.4"
regex = "1"
serde = { version = "1", features = ["derive"] }
serde_json = "1"
sigpipe = "*"
simplelog = "*"
term-table = "*"
termsize = "*"
