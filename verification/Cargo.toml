[package]
name = "sugar"
version = "0.1.0"
edition = "2021"
publish = false

[dependencies]
stack_frame_allocators = "*"
unicode_escape = "*"
text_io = "*"
bumpalo = "*"
once_cell = "*"
