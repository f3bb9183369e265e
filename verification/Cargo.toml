[package]
name = "veil"
version = "0.1.0"
edition = "2021"
publish = false

[dependencies]
rand = "0.8"
rand_distr = "0.4"
statrs = "0.16"
csv = "1"
log = "0.4"
env_logger = "0.10"
diff-priv = "*"
