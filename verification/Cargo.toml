[package]
name = "legogroth16"
version = "0.1.0"
edition = "2021"
publish = false

[dependencies]
ark-ec = "0.4"
ark-ff = "0.4"
ark-poly = "0.4"
ark-relations = "0.4"
ark-serialize = "0.4"
ark-std = "0.4"
ark-bls12-377 = "0.4"

[dev-dependencies]
ark-cp6-782 = "0.4"
