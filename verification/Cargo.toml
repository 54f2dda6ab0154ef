[package]
name = "codecrafters_shell"
version = "0.1.0"
edition = "2021"
publish = false

[dependencies]
anyhow = "1"
dirs = "*"
is_executable = "1"
os_pipe = "1"
rustyline = "*"
