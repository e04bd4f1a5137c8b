[package]
name = "wevm_core"
version = "0.1.0"
edition = "2021"
publish = false

[dependencies]
base58 = "0.2"
convert_case = "0.6"
wasmi = "0.31"
jni = "0.21"

[dev-dependencies]
wat = "1"
