[package]
name = "aneurysm"
version = "0.1.0"
edition = "2021"
publish = false

[dependencies]
bimap = "0.6"
num-modular = "0.6"
clap = { version = "4", features = ["derive"] }
console = "0.15"
directories = "*"
displaydoc = "0.2"
flexi_logger = "*"
log = "0.4"
rustyline = "*"
shellfish = "*"
term_size = "*"
thiserror = "1"
thousands = "*"
