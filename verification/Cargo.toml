[package]
name = "mesa_kernel"
version = "0.1.0"
edition = "2021"
publish = false

[dependencies]
spin = "0.9"
x86_64 = "0.15"
aml = "0.16"
limine = "*"
libm = "0.2"
lazy_static = "1"
uart_16550 = "0.3"
pic8259 = "0.11"
xhci = "0.9"
