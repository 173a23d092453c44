//! The processor: its state, interrupts and tasks, and the loop that runs it.
pub mod context;
pub mod entry;
pub mod exec;
pub mod handlers;
pub mod hooks;
pub mod iret;
pub mod phase;
pub mod run;
pub mod segments;
pub mod stack;
pub mod state;
pub mod trace;
