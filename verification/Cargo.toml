[package]
name = "md_shootout"
version = "0.1.0"
edition = "2021"
publish = false

[dependencies]
capnp = "0.10"
clap = "2.33"
flatbuffers = "0.6"
hdrhistogram = { version = "6.3", default-features = false }
smallvec = "1"
