[package]
name = "o_o"
version = "0.1.0"
edition = "2021"
publish = false

[dependencies]
anyhow = "*"
duct = "*"
ng-clp = "*"
tempfile = "*"
thiserror = "*"
