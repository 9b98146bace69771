[package]
name = "truck_brep"
version = "0.1.0"
edition = "2021"
publish = false

[dependencies]
truck-modeling = "*"
truck-meshalgo = "*"
truck-stepio = "*"
truck-topology = "*"
tobj = "*"
serde_json = "*"
