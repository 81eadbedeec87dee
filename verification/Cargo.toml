[package]
name = "spacebattleship"
version = "0.1.0"
edition = "2021"
publish = false

[dependencies]
clap = "2.33"
enumflags2 = "0.6"
once_cell = "1"
rand = "0.7"
regex = "1"
thiserror = "1"
