[package]
name = "forge-create"
version = "0.1.0"
edition = "2021"
publish = false

[dependencies]
alloy-chains = { version = "=0.1.69", default-features = false }
alloy-dyn-abi = { version = "=0.8.26", default-features = false, features = ["std"] }
alloy-json-abi = { version = "=0.8.26", default-features = false, features = ["std"] }
alloy-network = "=0.9.2"
alloy-primitives = { version = "=0.8.26", default-features = false, features = ["std"] }
alloy-provider = { version = "=0.9.2", default-features = false }
alloy-rpc-types = { version = "=0.9.2", default-features = false, features = ["eth"] }
alloy-serde = "=0.9.2"
alloy-signer = "=0.9.2"
alloy-transport = "=0.9.2"
alloy-zksync = { version = "=0.9.1", default-features = false }
clap = { version = "4.5", default-features = false, features = ["std", "help", "usage", "error-context", "derive", "env"] }
eyre = "0.6"
serde_json = "1"
thiserror = "2"
tracing = "0.1"
# Versions of transitive crates that the 0.9 line of alloy builds with.
idna_adapter = "=1.1.0"
ruint = { version = "=1.12.4", default-features = false }
serde = "=1.0.218"
