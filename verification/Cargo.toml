[package]
name = "jit_unwind"
version = "0.1.0"
edition = "2021"
publish = false

[dependencies]
gimli = "=0.34.0"
object = { version = "=0.40.0", features = ["write"] }
