[package]
name = "onioncry"
version = "0.1.0"
edition = "2021"
publish = false

[dependencies]
serde = { version = "=1.0.229", features = ["derive"] }
serde_json = "=1.0.154"
jsonc-parser = { version = "=0.34.0", features = ["serde"] }
oxc_allocator = "=0.143.0"
oxc_ast = "=0.143.0"
oxc_parser = "=0.143.0"
oxc_span = "=0.143.0"
