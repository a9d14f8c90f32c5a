[package]
name = "esp8266_driver"
version = "0.1.0"
edition = "2021"
publish = false

[dependencies]
heapless = "0.8"
embassy-futures = "*"
embassy-time = "*"
embassy-executor = "*"
ch32-hal = "*"
