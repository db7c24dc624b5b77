//! Boot-stage descriptor tables and text console for a 32-bit kernel.
//!
//! The crate covers the earliest bring-up work of a bare-metal kernel:
//! bit-level encoding of Global and Interrupt Descriptor Table entries,
//! construction of the fixed boot-time tables, and a VGA text-mode console
//! driver (cursor state machine, control characters, scrolling). The
//! privileged register loads and the memory-mapped buffer itself live with
//! the caller; everything here is plain data and is verified.

pub mod codec;
pub mod gdt;
pub mod idt;
pub mod vga_driver;
