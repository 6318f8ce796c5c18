[package]
name = "sensor_station"
version = "0.1.0"
edition = "2021"
publish = false

[dependencies]
anyhow = "=1.0.104"
dht11 = "=0.3.1"
embedded-svc = "0.28"
esp-idf-hal = "0.44"
esp-idf-svc = "0.49"
esp-idf-sys = "0.35"
heapless = "=0.8.0"
lcd-lcm1602-i2c = "0.2"
log = "=0.4.34"

[dev-dependencies]
serde_json = "=1.0.154"
