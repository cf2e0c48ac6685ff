[package]
name = "oracle_sql_tools"
version = "0.1.0"
edition = "2021"
publish = false

[dependencies]
itertools = "=0.15.0"
num_cpus = "=1.17.0"
chrono = "=0.4.45"
oracle = { version = "=0.6.3", features = ["chrono"] }
indicatif = "=0.18.6"
thiserror = "=2.0.21"
