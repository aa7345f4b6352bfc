[package]
name = "dafont"
version = "0.1.0"
edition = "2021"
publish = false

[dependencies]
allsorts = { version = "*", default-features = false, features = ["flate2_rust"] }
base64 = "0.22"
mmapio = "*"
rayon = "1"
xmlparser = { version = "0.13", default-features = false, features = ["std"] }
