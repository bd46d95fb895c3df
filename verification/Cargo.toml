[package]
name = "ipfs_webdav"
version = "0.1.0"
edition = "2021"
publish = false

[dependencies]
async-trait = "0.1"
bytes = "1"
futures = "0.3"
http = "0.2"
ipfs-api-backend-hyper = { version = "=0.5.0", features = ["with-send-sync"] }
log = "0.4"
webdav-handler = "0.2"
