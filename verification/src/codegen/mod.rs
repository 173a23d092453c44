//! Generation of host code.
pub mod page;
pub mod see;
pub mod singlepass;
