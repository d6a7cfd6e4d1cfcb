[package]
name = "vhost-user-scsi"
version = "0.1.0"
edition = "2021"
publish = false

[dependencies]
env_logger = "*"
log = "*"
structopt = "*"
vhost = "*"
vhost-user-backend = "*"
virtio-bindings = "*"
virtio-queue = "*"
vm-memory = { version = "*", features = ["backend-mmap", "backend-atomic"] }
vmm-sys-util = "*"
