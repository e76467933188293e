[package]
name = "orange_beam"
version = "0.2.0"
edition = "2021"
publish = false

[dependencies]
block2 = "0.6"
dispatch2 = "0.3"
hidapi = { version = "2.6", default-features = false, features = ["linux-native-basic-udev"] }
libc = "0.2"
objc2 = "0.6"
objc2-app-kit = "0.3"
objc2-core-graphics = "0.3"
objc2-core-image = "0.3"
objc2-core-media = "0.3"
objc2-foundation = "0.3"
objc2-screen-capture-kit = "0.3"
