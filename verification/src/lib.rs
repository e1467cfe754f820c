//! Virtual-memory management core for x86_64 kernel bring-up: typed physical
//! and virtual addresses, the 4-level page-table hierarchy with its 64-bit
//! hardware entry format, a paging engine that establishes, removes and
//! translates virtual-to-physical mappings over lazily allocated tables, and
//! the global descriptor table needed to run in long mode.

pub mod addr;
pub mod bios;
pub mod entry;
pub mod error;
pub mod frame_alloc;
pub mod gdt;
pub mod level;
pub mod paging;
pub mod table;
pub mod vga;
