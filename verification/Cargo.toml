[package]
name = "gdy_model"
version = "0.1.0"
edition = "2021"
publish = false

[dependencies]
regex = "=1.13.1"
itertools = "=0.15.0"
periodic-table-on-an-enum = "=0.3.2"
periodic_table = "=0.5.0"
castep-periodic-table = "=0.5.2"
castep-cell-io = "=0.2.18"
crystal-cif-io = "=0.1.2"
nalgebra = "=0.35.0"
ndarray = "=0.17.2"
serde = { version = "=1.0.229", features = ["derive"] }
serde_yaml = "=0.9.34"
toml = "=1.1.8"
glob = "=0.3.4"
rayon = "=1.12.0"
indicatif = { version = "=0.18.6", features = ["rayon"] }
