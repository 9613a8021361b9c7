[package]
name = "arith_air"
version = "0.1.0"
edition = "2021"
publish = false

[dependencies]
bincode = "1"
p3-air = "*"
p3-baby-bear = "*"
p3-challenger = "*"
p3-commit = "*"
p3-dft = "*"
p3-field = "*"
p3-fri = "*"
p3-matrix = "*"
p3-merkle-tree = "*"
p3-symmetric = "*"
p3-uni-stark = "*"
rand = "*"
