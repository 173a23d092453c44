//! The devices of the machine.
pub mod acpi;
pub mod bank;
pub mod bcd;
pub mod cmos;
pub mod dma;
pub mod fdc;
pub mod ide;
pub mod intr;
pub mod logger;
pub mod logibm;
pub mod machine;
pub mod mouse;
pub mod net;
pub mod pci;
pub mod pic;
pub mod ports;
pub mod routes;
pub mod snapshot;
pub mod storage;
pub mod wide;
