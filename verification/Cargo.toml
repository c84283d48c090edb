[package]
name = "rustcooling"
version = "1.0.0"
edition = "2021"
publish = false

[dependencies]
clap = { version = "=4.6.7", features = ["derive"] }
colored = "=2.2.0"
ctrlc = "=3.5.2"
hidapi = { version = "=2.6.7", default-features = false, features = ["linux-native-basic-udev"] }
