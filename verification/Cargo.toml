[package]
name = "gladius_slicer"
version = "0.1.0"
edition = "2021"
publish = false

[dependencies]
serde = { version = "=1.0.229", features = ["derive"] }
serde_json = "=1.0.154"
deser-hjson = "=2.2.6"
bincode = "=1.3.3"
clap = { version = "=4.6.7", features = ["derive"] }
geo = { version = "=0.30.0", features = ["use-serde"] }
geo-clipper = "=0.9.0"
itertools = "=0.13.0"
nalgebra = "=0.35.0"
nom_stl = "=0.2.2"
zip = { version = "=9.2.2", default-features = false, features = ["deflate"] }
serde-xml-rs = "=0.8.2"
rayon = "=1.12.0"
log = "=0.4.35"
simple_logger = "=5.2.0"
evalexpr = "=12.0.3"
time = { version = "=0.3.55", features = ["formatting", "local-offset"] }
ordered-float = "=5.5.1"
rand = "=0.8.8"
