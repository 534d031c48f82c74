[package]
name = "df_crash_miner"
version = "0.1.0"
edition = "2021"
publish = false

[dependencies]
chrono = "*"
crossbeam-queue = "*"
anyhow = "*"
bzip2 = "*"
comfy-table = "*"
dirs = "*"
futures = "*"
glob = "*"
humantime = "*"
regex = "*"
tar = "*"
zip = "*"
structopt = "*"
tokio = { version = "*", features = ["macros", "rt-multi-thread", "process", "signal"] }
reqwest = { version = "*", default-features = false }
