[package]
name = "dg"
version = "0.1.0"
edition = "2021"
publish = false

[dependencies]
scalable_cuckoo_filter = "=0.5.1"
rand = "=0.9.5"
inotify = "=0.11.5"
clap = { version = "=4.6.7", features = ["derive"] }
