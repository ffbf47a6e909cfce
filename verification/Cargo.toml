[package]
name = "raster_regions"
version = "0.1.0"
edition = "2021"
publish = false

[dependencies]
png_encode_mini = "*"
