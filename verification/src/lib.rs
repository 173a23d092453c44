//! The core of an emulated x86 PC: the processor's interrupt and task machinery, the devices
//! around it, and the code generators that translate guest code.
pub mod bytes;
pub mod codegen;
pub mod decoder;
pub mod emulator;
pub mod hw;
pub mod mem;
pub mod system;
