[package]
name = "wark"
version = "0.3.4"
edition = "2021"
publish = false

[dependencies]
abstract-ns = "*"
capturing-glob = "*"
difference = "*"
env_logger = "0.5"
failure = "0.1"
futures = "0.1"
git2 = { version = "*", default-features = false }
lazy_static = "1"
log = "0.4"
ns-env-config = "*"
quire = "*"
rand = "0.4"
semver = "0.9"
serde = "1"
serde_derive = "1"
serde_json = "1"
ssh-keys = "*"
structopt = "0.2"
tk-easyloop = "*"
tk-http = "*"
tokio-core = "0.1"
trimmer = "*"
trimmer_derive = "*"
void = "1"
