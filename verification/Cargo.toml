[package]
name = "heel"
version = "0.1.0"
edition = "2021"
publish = false

[dependencies]
sha2 = "0.10"
seccompiler = "*"
landlock = "0.4"
libc = "0.2"
nix = { version = "*", features = ["feature"] }
shell-escape = "0.1"
which = "*"
remove_dir_all = "*"
blocking = "1"
smol = "2"
clap = { version = "4", features = ["derive"] }
serde = { version = "1", features = ["derive"] }
serde_json = "1"
rmp-serde = "1"
thiserror = "*"
toml = "*"
tracing = "0.1"
tracing-subscriber = { version = "0.3", features = ["env-filter"] }
