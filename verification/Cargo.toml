[package]
name = "webcache"
version = "0.1.0"
edition = "2021"
publish = false

[dependencies]
base64 = "=0.22.1"
bson = { version = "=3.1.0", features = ["serde"] }
crypto-hashes = "=0.10.0"
dirs = "=7.0.0"
http_req = { version = "=0.14.6", default-features = false, features = ["rust-tls"] }
infers-jsonschema = "=0.1.0"
json5 = "=1.3.4"
jsonschema = { version = "=0.60.1", default-features = false }
jsonschema-valid = "=0.5.2"
log = "=0.4.34"
paw = "=1.0.0"
pretty_env_logger = "=0.5.0"
regex = "=1.13.1"
ron = "=0.12.2"
serde = { version = "=1.0.229", features = ["derive"] }
serde-pickle = "=1.2.0"
serde_cbor = "*"
serde_json = "=1.0.154"
serde_with = "=3.24.0"
serde_yaml = "=0.9.34"
sled = "=0.34.7"
structopt = { version = "=0.3.26", features = ["paw"] }
toml = "=1.1.8"
url = "=2.5.8"
valico = "=4.0.0"
