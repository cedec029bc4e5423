[package]
name = "p11scope"
version = "0.1.0"
edition = "2021"
publish = false

[dependencies]
anyhow = "=1.0.104"
aya = "=0.14.0"
libc = "=0.2.191"
serde_json = "=1.0.154"
pkcs11-module = "=0.2.2"
pkcs11-proxy-ng-types = "=0.3.1"
