[package]
name = "vbumpp-core"
version = "0.1.0"
edition = "2021"
publish = false

[dependencies]
aes-gcm = "0.10"
dialoguer = "*"
glob = "*"
jsonc-parser = { version = "*", features = ["serde"] }
rand = "0.9"
regex = "1"
schemars = "1"
serde = { version = "1", features = ["derive"] }
serde_json = "1"
serde_path_to_error = "*"
shell-words = "1"
toml = "*"
toml_edit = "*"
ureq = { version = "3", features = ["json"] }
url = "2"
