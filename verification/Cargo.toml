[package]
name = "shmem_ipc"
version = "0.1.0"
edition = "2021"
publish = false

[dependencies]
libc = "*"
memfd = "*"
memmap2 = "*"
thiserror = "*"
zerocopy = "*"
