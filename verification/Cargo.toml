[package]
name = "chalk_clauses"
version = "0.1.0"
edition = "2021"
publish = false

[dependencies]
chalk-ir = { version = "=0.10.0", features = ["default-interner"] }
chalk-rust-ir = "=0.10.0"
rustc-hash = "=1.1.0"
