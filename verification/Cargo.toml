[package]
name = "rustos"
version = "0.1.0"
edition = "2021"
publish = false

[dependencies]
font8x8 = "*"
x86_64 = "*"
spin = "*"
lazy_static = "*"
pic8259 = "*"
pc-keyboard = "*"
raw-cpuid = "*"
smoltcp = "*"
crossbeam-queue = "*"
conquer-once = "*"
futures-util = "*"
linked_list_allocator = "*"
bootloader_api = "*"
