[package]
name = "sparse_ecs"
version = "0.1.0"
edition = "2021"
publish = false

[dependencies]
ahash = "*"
anymap = "*"
bitvec = "*"
thiserror = "*"
