[package]
name = "sudoku_avr"
version = "0.1.0"
edition = "2021"
publish = false

[dependencies]
anyhow = "1"
colored = "2"
log = "0.4"
pad = "0.1"
rand = "0.8"
serialport = { version = "4", default-features = false }
simplelog = "0.11"
structopt = "0.3"
strum = "0.24"
strum_macros = "0.24"
sudoku = "0.7"
