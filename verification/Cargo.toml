[package]
name = "expectation"
version = "0.1.0"
edition = "2021"
publish = false

[dependencies]
diff = "*"
marksman_escape = "*"
image = { version = "*", default-features = false, features = ["png"] }
colored = "*"
crossbeam = "*"
serde = { version = "*", features = ["derive"] }
serde_json = "*"
structopt = "*"
walkdir = "*"
