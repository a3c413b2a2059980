[package]
name = "ics10_grandpa"
version = "0.1.0"
edition = "2021"
publish = false

[dependencies]
async-trait = "=0.1.92"
ed25519-consensus = "=2.1.0"
futures = "=0.3.34"
hex = "=0.4.3"
ibc-proto = { version = "=0.51.1", default-features = false, features = ["std"] }
ics23 = "=0.12.0"
parity-scale-codec = "=3.7.5"
prost = "=0.13.5"
sha2 = "=0.10.9"
sp-core = "=43.0.0"
sp-crypto-hashing = "=0.1.0"
sp-trie = "=47.0.0"
tendermint = "=0.40.4"
vec1 = "=1.12.1"
