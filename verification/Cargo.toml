[package]
name = "microstring"
version = "0.1.0"
edition = "2021"
publish = false

[dependencies]
serde = "1"
schemars = "1"
zerocopy = { version = "0.8", features = ["derive"] }
const-default = "1"
