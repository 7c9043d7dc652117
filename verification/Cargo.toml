[package]
name = "openssh"
version = "0.1.0"
edition = "2021"
publish = false

[dependencies]
shell-escape = "=0.1.5"
bytes = "=1.12.1"
tokio = { version = "=1.54.1", features = ["process", "io-util", "rt", "macros", "time", "sync", "fs"] }
tokio-io-utility = "=0.7.6"
tokio-pipe = "=0.2.12"
tempfile = "=3.27.0"
dirs = "=7.0.0"
once_cell = "=1.21.4"
openssh-sftp-client = "=0.15.11"
openssh-sftp-client-lowlevel = "=0.7.4"
openssh-mux-client = "=0.17.9"
libc = "=0.2.191"
