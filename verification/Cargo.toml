[package]
name = "vortex_list_layout"
version = "0.1.0"
edition = "2021"
publish = false

[dependencies]
async-trait = "0.1"
futures = "0.3"
kanal = "0.1"
prost = "0.14"
vortex-array = "0.57"
vortex-buffer = "0.57"
vortex-dtype = "0.57"
vortex-error = "0.57"
vortex-io = "0.57"
vortex-mask = "0.57"
vortex-scalar = "0.57"
vortex-session = "0.57"
