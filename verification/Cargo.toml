[package]
name = "audionoise"
version = "0.1.0"
edition = "2021"
publish = false

[dependencies]
memmap2 = "*"
bytemuck = "*"
clap = { version = "*", features = ["derive"] }
crossterm = "*"
ratatui = "*"
