[package]
name = "state_migration"
version = "0.1.0"
edition = "2021"
publish = false

[dependencies]
anyhow = "1"
chrono = { version = "0.4", features = ["serde"] }
cid = "*"
dialoguer = "*"
fil_actor_init_state = "*"
fvm_ipld_blockstore = "*"
fvm_ipld_encoding = "*"
libipld = "*"
memmap2 = "*"
multihash-codetable = { version = "*", features = ["blake2b"] }
once_cell = "1"
positioned-io = "*"
schemars = "0.8"
serde = { version = "1", features = ["derive"] }
tracing = "0.1"
uuid = { version = "1", features = ["v4", "serde"] }
