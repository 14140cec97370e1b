[package]
name = "xfuzz"
version = "0.1.0"
edition = "2021"
publish = false

[dependencies]
libafl = { version = "=0.11.2", default-features = false, features = ["std", "derive", "llmp_compression", "llmp_small_maps", "llmp_broker_timeouts", "rand_trait", "fork", "prelude", "gzip", "regex"] }
libafl_bolts = { version = "=0.11.2", default-features = false, features = ["std", "derive", "llmp_compression", "llmp_small_maps", "rand_trait", "prelude", "gzip", "alloc", "xxh3"] }
