//! Device-driver logic.
//!
//! Drivers talk to hardware through port reads and writes, which belong to
//! the unverified shell, and they decide what to do with the values read,
//! which is logic and is verified here: the keyboard's bounded scancode
//! queue and the scan of the PCI inventory.

pub mod keyboard;
pub mod pci;
