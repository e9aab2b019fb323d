[package]
name = "rng-rename"
version = "0.1.0"
edition = "2021"
publish = false

[dependencies]
ansi_term = "=0.12.1"
clap = { version = "=4.6.7", features = ["derive"] }
clap_complete = "=4.6.11"
clap-verbosity-flag = "=2.2.3"
derivative = "=2.2.0"
dialoguer = "=0.11.0"
itertools = "=0.13.0"
log = "=0.4.34"
rand = "=0.8.8"
sanitize-filename = "=0.5.0"
simple_logger = "=4.3.3"
yansi = { version = "=1.0.1", features = ["detect-env", "detect-tty"] }
