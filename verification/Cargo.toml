[package]
name = "uuid_b64"
version = "0.1.0"
edition = "2021"
publish = false

[dependencies]
base64 = "0.22"
uuid = { version = "1", features = ["v4"] }
inlinable_string = "0.1"
serde = "1"
diesel = { version = "2", default-features = false, features = ["postgres_backend", "uuid"] }
diesel-derive-newtype = "*"
