[package]
name = "waveview"
version = "0.1.0"
edition = "2021"
publish = false

[dependencies]
tokio = { version = "1", features = ["rt-multi-thread", "sync", "time", "macros"] }
crossterm = "0.25"
tui = "0.19"
symphonia = "0.5"
