[package]
name = "frequalizer"
version = "0.1.0"
edition = "2021"
publish = false

[dependencies]
rustfft = "*"
pitch-detection = "*"
pitch-detector = "*"
fundsp = "*"
heapless = "*"
seq-macro = "*"
embedded-svc = "*"
esp-idf-hal = "*"
esp-idf-svc = "*"
esp-idf-sys = "*"
ws2812-esp32-rmt-driver = "*"
