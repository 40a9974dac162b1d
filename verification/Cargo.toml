[package]
name = "lcd_lcm1602_i2c"
version = "0.1.0"
edition = "2021"

[dependencies]
embedded-hal = "0.2"
