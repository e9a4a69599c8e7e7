[package]
name = "gvls"
version = "0.1.0"
edition = "2021"
publish = false

[dependencies]
argon2 = "0.5"
rand = "0.9"
serde = { version = "1", features = ["derive"] }
tokio = { version = "1", features = ["full"] }
remoc = { version = "*", features = ["full"] }
tokio-postgres = "0.7"
rtnetlink = "*"
netlink-packet-route = "*"
netlink-packet-core = "*"
futures-util = "0.3"
axum = "0.8"
axum-extra = { version = "*", features = ["typed-header", "form"] }
askama = "*"
async-session = "3"
http = "1"
tower-http = { version = "*", features = ["fs"] }
rustls = "0.23"
tokio-rustls = "0.26"
rcgen = "*"
