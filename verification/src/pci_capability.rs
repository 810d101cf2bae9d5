//! # PCI device capabilities
//!
//! The capability IDs of the PCI Code and ID Assignment Specification.
use vstd::prelude::*;

verus! {

#[derive(Clone, Copy, Debug, Eq, Hash, PartialEq, Structural)]
pub enum Capability {
    Null,
    Pmi,
    Agp,
    Vpd,
    SlotIdentification,
    Msi,
    CompactPciHotSwap,
    PciX,
    HyperTransport,
    VendorSpecific,
    DebugPort,
    CompactPciCentralResourceControl,
    HotPlug,
    BridgeSubsystemVendorId,
    Agp8x,
    SecureDevice,
    PciExpress,
    MsiX,
    SerialAta,
    AdvancedFeatures,
    EnhancedAllocation,
    FlatteningPortalBridge,
}

/// The code of each capability.
pub open spec fn capability_code(c: Capability) -> u8 {
    match c {
        Capability::Null => 0x00,
        Capability::Pmi => 0x01,
        Capability::Agp => 0x02,
        Capability::Vpd => 0x03,
        Capability::SlotIdentification => 0x04,
        Capability::Msi => 0x05,
        Capability::CompactPciHotSwap => 0x06,
        Capability::PciX => 0x07,
        Capability::HyperTransport => 0x08,
        Capability::VendorSpecific => 0x09,
        Capability::DebugPort => 0x0A,
        Capability::CompactPciCentralResourceControl => 0x0B,
        Capability::HotPlug => 0x0C,
        Capability::BridgeSubsystemVendorId => 0x0D,
        Capability::Agp8x => 0x0E,
        Capability::SecureDevice => 0x0F,
        Capability::PciExpress => 0x10,
        Capability::MsiX => 0x11,
        Capability::SerialAta => 0x12,
        Capability::AdvancedFeatures => 0x13,
        Capability::EnhancedAllocation => 0x14,
        Capability::FlatteningPortalBridge => 0x15,
    }
}

/// The capability with the given code, if there is one.
pub open spec fn capability_from_code(raw: u8) -> Option<Capability> {
    if raw == 0x00 {
        Some(Capability::Null)
    } else if raw == 0x01 {
        Some(Capability::Pmi)
    } else if raw == 0x02 {
        Some(Capability::Agp)
    } else if raw == 0x03 {
        Some(Capability::Vpd)
    } else if raw == 0x04 {
        Some(Capability::SlotIdentification)
    } else if raw == 0x05 {
        Some(Capability::Msi)
    } else if raw == 0x06 {
        Some(Capability::CompactPciHotSwap)
    } else if raw == 0x07 {
        Some(Capability::PciX)
    } else if raw == 0x08 {
        Some(Capability::HyperTransport)
    } else if raw == 0x09 {
        Some(Capability::VendorSpecific)
    } else if raw == 0x0A {
        Some(Capability::DebugPort)
    } else if raw == 0x0B {
        Some(Capability::CompactPciCentralResourceControl)
    } else if raw == 0x0C {
        Some(Capability::HotPlug)
    } else if raw == 0x0D {
        Some(Capability::BridgeSubsystemVendorId)
    } else if raw == 0x0E {
        Some(Capability::Agp8x)
    } else if raw == 0x0F {
        Some(Capability::SecureDevice)
    } else if raw == 0x10 {
        Some(Capability::PciExpress)
    } else if raw == 0x11 {
        Some(Capability::MsiX)
    } else if raw == 0x12 {
        Some(Capability::SerialAta)
    } else if raw == 0x13 {
        Some(Capability::AdvancedFeatures)
    } else if raw == 0x14 {
        Some(Capability::EnhancedAllocation)
    } else if raw == 0x15 {
        Some(Capability::FlatteningPortalBridge)
    } else {
        None
    }
}

impl Capability {
    pub fn from_raw(raw: u8) -> (r: Option<Self>)
        ensures
            r == capability_from_code(raw),
    {
        match raw {
            0x00 => Some(Self::Null),
            0x01 => Some(Self::Pmi),
            0x02 => Some(Self::Agp),
            0x03 => Some(Self::Vpd),
            0x04 => Some(Self::SlotIdentification),
            0x05 => Some(Self::Msi),
            0x06 => Some(Self::CompactPciHotSwap),
            0x07 => Some(Self::PciX),
            0x08 => Some(Self::HyperTransport),
            0x09 => Some(Self::VendorSpecific),
            0x0A => Some(Self::DebugPort),
            0x0B => Some(Self::CompactPciCentralResourceControl),
            0x0C => Some(Self::HotPlug),
            0x0D => Some(Self::BridgeSubsystemVendorId),
            0x0E => Some(Self::Agp8x),
            0x0F => Some(Self::SecureDevice),
            0x10 => Some(Self::PciExpress),
            0x11 => Some(Self::MsiX),
            0x12 => Some(Self::SerialAta),
            0x13 => Some(Self::AdvancedFeatures),
            0x14 => Some(Self::EnhancedAllocation),
            0x15 => Some(Self::FlatteningPortalBridge),
            _ => None,
        }
    }

    pub fn into_raw(self) -> (raw: u8)
        ensures
            raw == capability_code(self),
    {
        match self {
            Self::Null => 0x00,
            Self::Pmi => 0x01,
            Self::Agp => 0x02,
            Self::Vpd => 0x03,
            Self::SlotIdentification => 0x04,
            Self::Msi => 0x05,
            Self::CompactPciHotSwap => 0x06,
            Self::PciX => 0x07,
            Self::HyperTransport => 0x08,
            Self::VendorSpecific => 0x09,
            Self::DebugPort => 0x0A,
            Self::CompactPciCentralResourceControl => 0x0B,
            Self::HotPlug => 0x0C,
            Self::BridgeSubsystemVendorId => 0x0D,
            Self::Agp8x => 0x0E,
            Self::SecureDevice => 0x0F,
            Self::PciExpress => 0x10,
            Self::MsiX => 0x11,
            Self::SerialAta => 0x12,
            Self::AdvancedFeatures => 0x13,
            Self::EnhancedAllocation => 0x14,
            Self::FlatteningPortalBridge => 0x15,
        }
    }
}

/// Decoding a capability's code gives it back, and a code that decodes to a
/// capability is that capability's code.
pub proof fn lemma_capability_code_roundtrip(c: Capability, raw: u8)
    ensures
        capability_from_code(capability_code(c)) == Some(c),
        capability_from_code(raw) == Some(c) ==> capability_code(c) == raw,
{
}

} // verus!
