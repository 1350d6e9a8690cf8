[package]
name = "neomatrix"
version = "0.1.0"
edition = "2021"
publish = false

[dependencies]
accelerometer = "=0.12.0"
adafruit-feather-rp2040 = "=0.8.0"
cortex-m = "=0.7.10"
cortex-m-rt = "=0.7.7"
embedded-hal = "=0.2.7"
lis3dh = "=0.4.4"
panic-halt = "=0.2.0"
smart-leds = "=0.3.0"
ws2812-pio = "=0.8.0"

[dev-dependencies]
micromath = "=2.1.0"
