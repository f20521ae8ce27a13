[package]
name = "lightningview"
version = "0.1.0"
edition = "2021"
publish = false

[dependencies]
image = "=0.25.10"
rand = "=0.10.3"
imagepipe = "=0.5.1"
rawloader = "=0.37.2"
rustronomy-fits = "=0.2.0"
ndarray = "=0.15.6"
arboard = "=3.6.1"
