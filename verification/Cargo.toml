[package]
name = "modbus_impl"
version = "0.1.0"
edition = "2021"
publish = false

[dependencies]
cortex-m = "0.7"
panic-halt = "*"
rp2040-hal = { version = "*", features = ["rt"] }
rp2040-boot2 = "*"
rp-usb-serial = "*"
rp235x-hal = { version = "*", features = ["rt"] }
rp-pio-serial = "*"
