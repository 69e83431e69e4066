[package]
name = "led_heart"
version = "0.1.0"
edition = "2021"
publish = false

[dependencies]
cortex-m = "=0.7.9"
embedded-hal = "1.0"
nrf52833-hal = "=0.19.0"
rtt-target = "=0.6.2"
