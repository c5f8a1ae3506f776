//! The identity that a PCI device shows in its configuration space.

use vstd::prelude::*;

verus! {

/// A PCI programming interface.
#[derive(Debug, Copy, Clone, PartialEq, Eq, Structural)]
pub struct ProgrammingInterface(pub u8);

/// A PCI subclass.
#[derive(Debug, Copy, Clone, PartialEq, Eq, Structural)]
pub struct Subclass(pub u8);

/// A PCI base class.
#[derive(Debug, Copy, Clone, PartialEq, Eq, Structural)]
pub struct ClassCode(pub u8);

/// The hardware IDs of a PCI device.
#[derive(Debug, Copy, Clone, PartialEq, Eq, Structural)]
pub struct HardwareIds {
    /// The PCI vendor ID.
    pub vendor_id: u16,
    /// The PCI device ID.
    pub device_id: u16,
    /// The PCI revision ID.
    pub revision_id: u8,
    /// The PCI programming interface.
    pub prog_if: ProgrammingInterface,
    /// The PCI subclass.
    pub sub_class: Subclass,
    /// The PCI base class.
    pub base_class: ClassCode,
    /// The PCI subsystem vendor ID.
    pub type0_sub_vendor_id: u16,
    /// The PCI subsystem ID.
    pub type0_sub_system_id: u16,
}

} // verus!
