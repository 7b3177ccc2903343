[package]
name = "movement_integrity"
version = "0.1.0"
edition = "2021"
publish = false

[dependencies]
p3-air = "0.3"
p3-baby-bear = "0.3"
p3-challenger = "0.3"
p3-commit = "0.3"
p3-dft = "0.3"
p3-field = "0.3"
p3-fri = "0.3"
p3-matrix = "0.3"
p3-merkle-tree = "0.3"
p3-symmetric = "0.3"
p3-uni-stark = "0.3"
bincode = "1"
futures-lite = "2"
rand = "0.9"
