[package]
name = "matcalc"
version = "0.1.0"
edition = "2021"
publish = false

[dependencies]
rustc_apfloat = "*"
libm = "*"
bytemuck = "*"
pest = "*"
pest_derive = "*"
lazy_static = "*"
