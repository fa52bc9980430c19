//! A small x86 kernel's drivers and console, as verified decision logic: every hardware
//! access is left to the caller, who carries out the port writes, memory stores and
//! drawing operations that these modules compute.

pub mod ata;
pub mod cpuid;
pub mod fpu;
pub mod graphics;
pub mod keyboard;
pub mod mem;
pub mod mouse;
pub mod pci;
pub mod pic;
pub mod port;
pub mod pspeaker;
pub mod rtc;
pub mod sb16;
pub mod serial;
pub mod vga;
