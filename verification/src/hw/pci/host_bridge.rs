//! The bridge between the processor and the PCI bus.
use vstd::prelude::*;

use crate::hw::pci::{CommonPciHeader, PciCommandRegister, PciDevice};

verus! {

#[derive(Copy, Clone, Debug, PartialEq, Eq, Structural)]
pub struct PciHostBridge {}

impl Default for PciHostBridge {
    fn default() -> (r: Self) {
        Self::new()
    }
}

impl PciHostBridge {
    pub fn new() -> (r: Self)
        ensures
            r == (PciHostBridge {  }),
    {
        Self {  }
    }

    pub fn snapshot(&self) -> (r: PciHostBridge)
        ensures
            r == *self,
    {
        *self
    }

    pub fn restore(&mut self, pci_host_bridge: PciHostBridge)
        ensures
            *final(self) == pci_host_bridge,
    {
        *self = pci_host_bridge;
    }

    pub open spec fn header() -> CommonPciHeader {
        CommonPciHeader {
            vendor_id: 0x8086,
            device_id: 0x1237,
            command: PciCommandRegister { value: 6 },
            status: 0x280,
            revision_id: 0,
            prog_if: 0,
            subclass: 0,
            class_code: 0x06,
            cache_line_size: 0,
            latency_timer: 0,
            header_type: 0,
            bist: 0,
        }
    }
}

impl PciDevice for PciHostBridge {
    open spec fn config(&self, index: int) -> int {
        match Self::header().register(index) {
            Some(v) => v,
            None => 0,
        }
    }

    open spec fn config_written(&self, index: int, val: u32, after: PciHostBridge) -> bool {
        after == *self
    }

    /// All writes are ignored. The registers 0x16 and 0x17 would map BIOS areas to memory.
    fn write_configuration_space(&mut self, index: usize, val: u32) {
    }

    fn read_configuration_space(&self, index: usize) -> (r: u32) {
        let hdr = CommonPciHeader {
            vendor_id: 0x8086,
            device_id: 0x1237,
            command: PciCommandRegister { value: 6 },
            status: 0x280,
            revision_id: 0,
            prog_if: 0,
            subclass: 0,
            class_code: 0x06,
            cache_line_size: 0,
            latency_timer: 0,
            header_type: 0,
            bist: 0,
        };
        match hdr.read(index) {
            Some(v) => v,
            None => 0,
        }
    }
}

} // verus!
