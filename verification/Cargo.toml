[package]
name = "golden_axe"
version = "0.1.0"
edition = "2021"
publish = false

[dependencies]
sled = "=0.34.7"
teloxide = { version = "=0.17.0", default-features = false, features = ["rustls", "macros"] }
tokio = { version = "=1.53.2", features = ["macros", "rt-multi-thread", "time"] }
futures = "=0.3.34"
# Not called by this crate: teloxide-core wants takecell ^0.1, and the newest
# patch of that line asks for a newer rustc than this build runs; the bound
# holds resolution at the earlier patch.
takecell = ">=0.1.0, <0.1.2"
