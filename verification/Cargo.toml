[package]
name = "hex"
version = "0.4.3"
edition = "2021"
publish = false

[dependencies]
proptest = "=1.12.0"
quickcheck = "=1.1.0"
rand = "=0.9.5"
crabcheck = "=0.1.0"
hegeltest = "=0.51.0"
