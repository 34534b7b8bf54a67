[package]
name = "winter_circom_prover"
version = "0.1.0"
edition = "2021"
publish = false

[dependencies]
colored = "=2.2.0"
# rug's own dependency, named only to have it link the GMP of the system
gmp-mpfr-sys = { version = "=1.4.13", default-features = false, features = ["use-system-libs"] }
rug = { version = "=1.17.0", default-features = false, features = ["integer"] }
winterfell = "=0.4.2"
