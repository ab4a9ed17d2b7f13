[package]
name = "visu_modi_ram"
version = "0.1.0"
edition = "2021"
publish = false

[dependencies]
regex = "1"
probe-rs = "0.22"
ddbug_parser = "0.4"
sensorlog = "*"
stopwatch = "*"
shellexpand = "3"
anyhow = "1"
