//! Register-access core for a network ASIC whose control/status registers are
//! exposed through a memory-mapped PCI BAR.
//!
//! The crate provides a bounds- and alignment-checked memory window over the
//! mapped register space, a hierarchical path-addressable register namespace,
//! arbitrary-width bit-field extraction, descriptor-ring inspection, fuse
//! decoding, and MAC status decoding.  Device discovery, the native mapping
//! call, command-line handling and all printing live outside this crate; the
//! core works on plain values handed in from there.

pub mod bits;
pub mod errors;
pub mod pci;
pub mod strutil;
pub mod regmap;
pub mod accessor;
pub mod numstr;
pub mod node;
pub mod dr;
pub mod mac;
pub mod fuse;
