[package]
name = "scan_core"
version = "0.1.0"
edition = "2021"
publish = false

[dependencies]
ansi_term = "0.12"
cidr-utils = "0.6"
colorful = "0.3"
dirs = "*"
env_logger = "0.11"
futures = "0.3"
indicatif = "0.17"
log = "0.4"
rlimit = "0.10"
