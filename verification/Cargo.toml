[package]
name = "dbos"
version = "0.1.0"
edition = "2021"
publish = false

[dependencies]
conquer-once = "=0.4.0"
crossbeam-queue = "=0.3.14"
futures-util = "=0.3.34"
lazy_static = "=1.5.1"
pc-keyboard = "=0.9.0"
spin = "=0.12.3"
tinypci = "=0.1.0"
uart_16550 = "=0.8.1"
volatile = "=0.6.1"

[dependencies.x86_64]
version = "=0.15.5"
default-features = false
features = ["instructions"]
