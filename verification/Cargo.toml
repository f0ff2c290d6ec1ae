[package]
name = "bus_board"
version = "0.1.0"
edition = "2021"
publish = false

[dependencies]
dom_query = "*"
reqwest = { version = "*", features = ["blocking"] }
ratatui = "*"
crossterm = "*"
