[package]
name = "midi_keys"
version = "0.1.0"
edition = "2021"
publish = false

[dependencies]
midly = "=0.5.3"
midi-reader-writer = { version = "=0.1.3", features = ["engine-midly-0-5"] }
device_query = "=4.0.1"
sysinputs = "=0.0.5"
