//! Early-boot support library for an x86-64 hobby operating system.
//!
//! The crate covers the compute-heavy core of a UEFI bootloader: a bitmap
//! physical-frame allocator built from a firmware memory map, an ELF segment
//! loader that turns a kernel image into page-aligned memory contents, and
//! builders for the CPU's global and interrupt descriptor tables.  Firmware
//! calls, raw-memory writes and the final control transfer live outside this
//! crate; everything here works on plain values and carries a contract.

pub mod bitmap;
pub mod elf;
pub mod elf_loader;
pub mod error;
pub mod frame;
pub mod gdt;
pub mod idt;
pub mod memory_map;
pub mod x86;
