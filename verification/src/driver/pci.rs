//! PCI device inventory.
//!
//! Probing the bus is port work of the unverified shell; what is verified is
//! the inventory itself and the scan that picks every device of a wanted
//! class, in probe order.

use vstd::prelude::*;

verus! {

/// What the bus probe reports of one device: where it sits and the combined
/// class-and-subclass code that names what kind of device it is.
#[derive(Clone, Copy, PartialEq, Eq, Structural, Debug)]
pub struct PciDeviceInfo {
    pub bus: u8,
    pub device: u8,
    pub full_class: u16,
}

/// Holds the devices the bus probe found.
pub struct PciScanner {
    pub devices: Vec<PciDeviceInfo>,
}

impl PciScanner {
    /// Takes over the inventory that the shell's bus probe produced.
    pub fn new(devices: Vec<PciDeviceInfo>) -> (r: Self)
        ensures
            r.devices@ == devices@,
    {
        PciScanner { devices }
    }

    /// Every device of the given class, in probe order.
    pub fn scan_for_type(&self, pci_type: u16) -> (found: Vec<PciDeviceInfo>)
        ensures
            found@ == self.devices@.filter(|d: PciDeviceInfo| d.full_class == pci_type),
    {
        let mut found: Vec<PciDeviceInfo> = Vec::new();
        let mut i: usize = 0;
        proof {
            reveal(Seq::filter);
            assert(self.devices@.take(0).filter(|d: PciDeviceInfo| d.full_class == pci_type)
                =~= Seq::<PciDeviceInfo>::empty());
        }
        while i < self.devices.len()
            invariant
                i <= self.devices@.len(),
                found@ == self.devices@.take(i as int).filter(
                    |d: PciDeviceInfo| d.full_class == pci_type),
            decreases self.devices@.len() - i,
        {
            let device = self.devices[i];
            proof {
                reveal(Seq::filter);
                let pred = |d: PciDeviceInfo| d.full_class == pci_type;
                let before = self.devices@.take(i as int);
                let after = self.devices@.take(i + 1);
                assert(after.drop_last() =~= before);
                assert(after.last() == device);
                assert(after.filter(pred) == if pred(device) {
                    before.filter(pred).push(device)
                } else {
                    before.filter(pred)
                });
            }
            if device.full_class == pci_type {
                found.push(device);
            }
            i = i + 1;
        }
        proof {
            assert(self.devices@.take(self.devices@.len() as int) =~= self.devices@);
        }
        found
    }
}

} // verus!
