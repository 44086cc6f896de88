[package]
name = "achordion_lib"
version = "0.1.0"
edition = "2021"
publish = false

[dependencies]
heapless = "0.6"
crc = "2"
usbd-midi = "0.2"
wmidi = "4"
