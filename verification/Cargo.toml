[package]
name = "zellij_panes"
version = "0.1.0"
edition = "2021"
publish = false

[dependencies]
unicode-width = "0.1"
clap = { version = "3.2", features = ["derive"] }
clap_complete = "3.2"
directories-next = "2.0"
serde = { version = "1.0", features = ["derive"] }
