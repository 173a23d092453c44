//! The bridge between the PCI bus and the ISA bus.
use vstd::prelude::*;

use crate::hw::pci::{
    CommonPciHeader, PciCommandRegister, PciDevice, CLASS_BRIDGE, SUBCLASS_ISA_BRIDGE,
};

verus! {

#[derive(Copy, Clone, Debug, PartialEq, Eq, Structural)]
pub struct PciToIsaBridge {
    pub pirq_route_control: u32,
    pub serr_enable: bool,
}

impl Default for PciToIsaBridge {
    fn default() -> (r: Self)
        ensures
            r == (PciToIsaBridge { pirq_route_control: 0x80808080, serr_enable: true }),
    {
        Self::new()
    }
}

impl PciToIsaBridge {
    pub fn new() -> (r: Self)
        ensures
            r == (PciToIsaBridge { pirq_route_control: 0x80808080, serr_enable: true }),
    {
        Self { pirq_route_control: 0x80808080, serr_enable: true }
    }

    pub fn snapshot(&self) -> (r: PciToIsaBridge)
        ensures
            r == *self,
    {
        *self
    }

    pub fn restore(&mut self, isa_bridge: PciToIsaBridge)
        ensures
            *final(self) == isa_bridge,
    {
        *self = isa_bridge;
    }

    pub open spec fn header(&self) -> CommonPciHeader {
        CommonPciHeader {
            vendor_id: 0x8086,
            device_id: 0x7000,
            command: PciCommandRegister {
                value: if self.serr_enable {
                    0x100
                } else {
                    0
                },
            },
            status: 0x200,
            revision_id: 0,
            prog_if: 0,
            subclass: SUBCLASS_ISA_BRIDGE,
            class_code: CLASS_BRIDGE,
            cache_line_size: 0,
            latency_timer: 0,
            header_type: 0x80,
            bist: 0,
        }
    }
}

pub const REG_PIRQ_ROUTE_CONTROL: usize = 0x18;

pub const REG_SERIRQ_CONTROL: usize = 0x19;

impl PciDevice for PciToIsaBridge {
    open spec fn config(&self, index: int) -> int {
        match self.header().register(index) {
            Some(v) => v,
            None => if index == 0x13 {
                // ISA I/O recovery timer and X-bus chip select
                0x0003_004D
            } else if index == REG_PIRQ_ROUTE_CONTROL {
                self.pirq_route_control as int
            } else if index == REG_SERIRQ_CONTROL {
                0x10
            } else if index == 0x1A {
                // Top of memory
                0x02
            } else {
                0
            },
        }
    }

    open spec fn config_written(&self, index: int, val: u32, after: PciToIsaBridge) -> bool {
        after == if index == REG_PIRQ_ROUTE_CONTROL {
            PciToIsaBridge { pirq_route_control: val, ..*self }
        } else {
            *self
        }
    }

    fn write_configuration_space(&mut self, index: usize, val: u32) {
        if index == REG_PIRQ_ROUTE_CONTROL {
            self.pirq_route_control = val;
        }
    }

    fn read_configuration_space(&self, index: usize) -> (r: u32) {
        let hdr = CommonPciHeader {
            vendor_id: 0x8086,
            device_id: 0x7000,
            command: PciCommandRegister {
                value: if self.serr_enable {
                    0x100
                } else {
                    0
                },
            },
            status: 0x200,
            revision_id: 0,
            prog_if: 0,
            subclass: SUBCLASS_ISA_BRIDGE,
            class_code: CLASS_BRIDGE,
            cache_line_size: 0,
            latency_timer: 0,
            header_type: 0x80,  // multifunction
            bist: 0,
        };
        match hdr.read(index) {
            Some(v) => v,
            None => match index {
                0x13 => 0x0003_004D,
                REG_PIRQ_ROUTE_CONTROL => self.pirq_route_control,
                REG_SERIRQ_CONTROL => 0x10,
                0x1A => 0x02,
                _ => 0,
            },
        }
    }
}

} // verus!
