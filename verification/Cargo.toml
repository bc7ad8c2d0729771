[package]
name = "twitter_api"
version = "0.1.0"
edition = "2021"
publish = false

[dependencies]
hyper = "=0.10.16"
hyper-native-tls = "=0.3.0"
json = "=0.12.4"
oauthcli = "=1.0.4"
rust-crypto = "=0.2.36"
rustc-serialize = "=0.3.25"
url = "=1.7.2"
