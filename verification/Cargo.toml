[package]
name = "galerio"
version = "0.1.0"
edition = "2021"
publish = false

[dependencies]
anyhow = "*"
chrono = "*"
image = "*"
kamadak-exif = "*"
rayon = "*"
serde = { version = "*", features = ["derive"] }
structopt = "*"
tera = "*"
zip = "*"
