[package]
name = "hydric"
version = "0.1.0"
edition = "2021"
publish = false

[dependencies]
egui = "0.31"
egui_ltreeview = "*"
egui-snarl = "*"
strum = "*"
log = "*"
lazy_static = "*"
ordered-float = "*"
ringbuffer = "*"
dasp_frame = "*"
poll-promise = "*"
leptos = "*"
thaw = "*"
wasm-bindgen = "*"
wasm-bindgen-futures = "*"
web-sys = "*"
js-sys = "*"
