[package]
name = "rolly_polly"
version = "0.1.0"
edition = "2021"
publish = false

[dependencies]
rapier2d = "0.17"
nalgebra = "0.32"
hecs = "0.10"
poly2tri-rs = "*"
macroquad = "0.3"
egui-macroquad = "0.15"
xml-rs = "0.8"
svg2polylines = "*"
indexmap = "2"
itertools = "0.12"
rustc-hash = "1"
simple-easing = "*"
ordered-float = "4"
