[package]
name = "pixi_global"
version = "0.1.0"
edition = "2021"
publish = false

[dependencies]
astral-reqwest-middleware = "=0.5.1"
clap = { version = "=4.6.7", features = ["derive"] }
console = "=0.16.6"
dialoguer = "=0.12.0"
indexmap = "=2.14.2"
is_executable = "=1.0.6"
miette = "=7.6.0"
rattler = { version = "=0.55.0", default-features = false }
rattler_conda_types = "=0.57.1"
rattler_shell = "=0.29.5"
reqwest = { version = "=0.13.5", default-features = false }
rlimit = "*"
tokio = { version = "=1.54.1", features = ["fs", "macros", "rt-multi-thread"] }
tracing = "=0.1.44"
