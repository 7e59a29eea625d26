[package]
name = "ftzz"
version = "0.1.0"
edition = "2021"
publish = false

[dependencies]
itoa = "1"
rand = "0.9"
rand_distr = "0.5"
rand_xoshiro = "0.7"
rustix = { version = "0.38", features = ["fs", "thread"] }
lockness-executor = "*"
error-stack = "0.5"
thiserror = "1"
sysexits = "*"
bytesize = "1"
thousands = "0.2"
clap = { version = "4", features = ["derive"] }
clap-num = "1"
clap-verbosity-flag = "*"
env_logger = "0.11"
log = "0.4"
io-adapters = "*"
cfg-if = "1"
