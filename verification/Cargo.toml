[package]
name = "hachimi_agent"
version = "0.1.0"
edition = "2021"
publish = false

[dependencies]
sha2 = "=0.10.9"
serde_json = "=1.0.154"
diff = "=0.1.13"
base64 = "=0.22.1"
