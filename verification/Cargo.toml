[package]
name = "ansible_stat"
version = "0.1.0"
edition = "2021"
publish = false

[dependencies]
checksums = "*"
chrono = "*"
exitcode = "*"
filetime = "*"
nix = { version = "*", features = ["fs", "user"] }
phf = { version = "*", features = ["macros"] }
serde = { version = "1", features = ["derive"] }
serde_json = "1"
users = "*"
