[package]
name = "clk"
version = "0.1.0"
edition = "2021"
publish = false

[dependencies]
embedded-graphics = "=0.8.2"
embedded-graphics-framebuf = "=0.5.0"
critical-section = "=1.2.0"
defmt = "=1.2.0"
defmt-rtt = "=1.3.1"
embedded-dht-rs = { version = "=0.5.0", features = ["dht11"] }
embedded-hal-bus = "=0.3.0"
esp-alloc = { version = "=0.11.0", features = ["esp32s3"] }
esp-bootloader-esp-idf = { version = "=0.6.0", features = ["esp32s3"] }
esp-hal = { version = "=1.2.2", features = ["esp32s3", "unstable"] }
esp-rtos = { version = "=0.4.0", features = ["esp32s3", "esp-alloc"] }
mipidsi = "=0.10.0"
nb = "=1.1.0"
