[package]
name = "cubeled"
version = "0.1.0"
edition = "2021"
publish = false

[dependencies]
color8 = "*"
lib8tion = "*"
smart-leds = "*"
embedded-hal = "*"
embedded-storage = "*"
embedded-io-async = "*"
defmt = "*"
embassy-sync = "*"
embassy-futures = "*"
embassy-time = "*"
embassy-executor = "*"
embassy-net = "*"
static_cell = "*"
esp-hal = "*"
esp-hal-smartled = "*"
esp-storage = "*"
esp-bootloader-esp-idf = "*"
esp-alloc = "*"
esp-backtrace = "*"
esp-println = "*"
esp-radio = "*"
esp-rtos = "*"
