[package]
name = "lucide_slint"
version = "0.1.0"
edition = "2021"
publish = false

[dependencies]
cnxt = "*"
duct = "*"
reqwest = { version = "*", default-features = false, features = ["blocking", "json", "rustls-tls"] }
serde = { version = "*", features = ["derive"] }
serde_json = "*"
toml_edit = "*"
usvg = "*"
