[package]
name = "aspect"
version = "0.1.0"
edition = "2021"
publish = false

[dependencies]
indexmap = "2"
inkwell = { version = "*", features = ["llvm19-1"] }
proc-macro2 = "1"
quote = "1"
syn = { version = "2", features = ["full", "visit-mut"] }
thiserror = "2"
