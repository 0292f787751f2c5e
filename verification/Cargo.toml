[package]
name = "pipec"
version = "0.1.0"
edition = "2021"
publish = false

[dependencies]
append-only-bytes = "=0.1.12"
arboard = { version = "=3.7.0", default-features = false }
async-tempfile = "=0.8.0"
bstr = "=1.13.1"
clap = { version = "=4.6.7", features = ["derive"] }
crossterm = { version = "=0.29.0", features = ["event-stream"] }
env_logger = "=0.11.11"
futures = "=0.3.34"
log = "=0.4.35"
ratatui = "=0.30.2"
tokio = { version = "=1.54.1", features = ["full"] }
tree-sitter-bash = "=0.25.1"
tree-sitter-highlight = "=0.25.10"
tui-input = "=0.15.5"
