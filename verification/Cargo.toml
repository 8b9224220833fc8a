[package]
name = "boinc_supervisor"
version = "0.1.0"
edition = "2021"
publish = false

[dependencies]
arrayref = "0.3"
ctrlc = "3"
memmap = "0.7"
strum_macros = "*"
