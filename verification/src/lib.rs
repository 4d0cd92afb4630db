//! Verified core of a small x86_64 kernel and its UEFI boot loader: the
//! serial console protocol, the GDT/TSS set-up, the boot-time memory map
//! computations, the boot framebuffer test pattern and the log line format.

pub mod serial;
pub mod gdt;
pub mod boot;
pub mod framebuffer;
pub mod logger;
