[package]
name = "toy_sql"
version = "0.1.0"
edition = "2021"
publish = false

[dependencies]
bigdecimal = "0.3"
miette = "5"
nom = "7"
nom-supreme = "0.8"
tabled = "0.12"
thiserror = "1"
