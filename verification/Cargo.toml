[package]
name = "ads"
version = "0.7.0"
edition = "2021"
publish = false

[dependencies]
byteorder = "1.5"
crossbeam-channel = "0.5"
zerocopy = "0.6"
