[package]
name = "libmcptool"
version = "0.1.0"
edition = "2021"
publish = false

[dependencies]
shell-words = "=1.1.1"
url = "=2.5.8"
tracing = "=0.1.44"
tracing-subscriber = { version = "=0.3.23", features = ["env-filter"] }
clap = { version = "=4.6.7", features = ["derive"] }
tmcp = { version = "=0.6.0", features = ["auth"] }
tokio = { version = "=1.54.1", features = ["full"] }
rustyline = "=19.0.0"
serde = { version = "=1.0.229", features = ["derive"] }
serde_json = "=1.0.154"
termcolor = "=1.4.1"
terminal_size = "=0.4.4"
chrono = "=0.4.45"
open = "=5.4.5"
dirs = "=7.0.0"
async-trait = "=0.1.92"
thiserror = "=2.0.21"
atty = "=0.2.14"
