//! The network card, and the translation of its packets to the host's network.
pub mod dhcp;
pub mod ne2k;
pub mod unat;
pub mod wire;
