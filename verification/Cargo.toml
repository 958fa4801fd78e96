[package]
name = "pond"
version = "0.1.0"
edition = "2021"
publish = false

[dependencies]
bbx_core = "*"
bbx_dsp = "*"
bbx_net = { version = "*", features = ["websocket"] }
bbx_player = "*"
ctrlc = "3"
rand = "0.8"
rand_chacha = "0.3"
rodio = "0.19"
tokio = { version = "1", features = ["rt-multi-thread", "sync", "time", "macros"] }
