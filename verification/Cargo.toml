[package]
name = "repo-lint"
version = "0.1.0"
edition = "2021"
publish = false

[dependencies]
clap = { version = "4", features = ["derive"] }
colored = "*"
crossbeam-channel = "0.5"
fast-glob = "*"
glob = "0.3"
globset = "0.4"
ignore = "0.4"
num_cpus = "1"
rayon = "1"
serde = { version = "1", features = ["derive"] }
serde_json = "1"
swc_common = "*"
swc_ecma_ast = "*"
swc_ecma_parser = "*"
thiserror = "*"
xxhash-rust = { version = "0.8", features = ["xxh3"] }
