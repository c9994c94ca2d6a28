[package]
name = "hwlocality"
version = "0.1.0"
edition = "2021"
publish = false

[dependencies]
bitflags = "=2.13.2"
derive_more = "=0.99.20"
enum-iterator = "=1.5.0"
errno = "=0.3.14"
libc = "=0.2.191"
num_enum = "=0.7.6"
quickcheck = "=1.1.0"
thiserror = "=1.0.69"
