//! Verified core of the Rhubarb operating system: the machine-code decoder,
//! the ELF reader and the small data structures shared by its kernel, shell
//! and drivers.
use vstd::prelude::*;

pub mod bits;
pub mod boot_info;
pub mod bytes;
pub mod cursor;
pub mod cursor_icon;
pub mod driver_input;
pub mod elf;
pub mod framebuffer;
pub mod keys;
pub mod layout;
pub mod load_plan;
pub mod loader;
pub mod math;
pub mod paging;
pub mod path;
pub mod pci;
pub mod pci_capability;
pub mod pci_class;
pub mod pod;
pub mod process;
pub mod rtc;
pub mod serial;
pub mod stable_string;
pub mod stable_vec;
pub mod time;
pub mod tree;
pub mod type_map;
pub mod x86;

verus! {

} // verus!
