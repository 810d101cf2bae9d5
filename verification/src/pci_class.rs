//! # PCI device classes
//!
//! The base class codes of the PCI Code and ID Assignment Specification.
use vstd::prelude::*;

verus! {

#[derive(Clone, Copy, Debug, Eq, Hash, PartialEq, Structural)]
pub enum Class {
    Unclassified,
    MassStorageController,
    NetworkController,
    DisplayController,
    MultimediaDevice,
    MemoryController,
    BridgeDevice,
    SimpleCommunicationController,
    BaseSystemPeripheral,
    InputDevice,
    DockingStation,
    Processor,
    SerialBus,
    WirelessController,
    IntelligentIoController,
    SatelliteCommunicationController,
    EncryptionController,
    SignalProcessingController,
    ProcessingAccelerator,
    NonEssentialInstrumentation,
    CoProcessor,
    VendorSpecific,
}

/// The code of each class.
pub open spec fn class_code(c: Class) -> u8 {
    match c {
        Class::Unclassified => 0x00,
        Class::MassStorageController => 0x01,
        Class::NetworkController => 0x02,
        Class::DisplayController => 0x03,
        Class::MultimediaDevice => 0x04,
        Class::MemoryController => 0x05,
        Class::BridgeDevice => 0x06,
        Class::SimpleCommunicationController => 0x07,
        Class::BaseSystemPeripheral => 0x08,
        Class::InputDevice => 0x09,
        Class::DockingStation => 0x0A,
        Class::Processor => 0x0B,
        Class::SerialBus => 0x0C,
        Class::WirelessController => 0x0D,
        Class::IntelligentIoController => 0x0E,
        Class::SatelliteCommunicationController => 0x0F,
        Class::EncryptionController => 0x10,
        Class::SignalProcessingController => 0x11,
        Class::ProcessingAccelerator => 0x12,
        Class::NonEssentialInstrumentation => 0x13,
        Class::CoProcessor => 0x40,
        Class::VendorSpecific => 0xFF,
    }
}

/// The class with the given code, if there is one.
pub open spec fn class_from_code(raw: u8) -> Option<Class> {
    if raw == 0x00 {
        Some(Class::Unclassified)
    } else if raw == 0x01 {
        Some(Class::MassStorageController)
    } else if raw == 0x02 {
        Some(Class::NetworkController)
    } else if raw == 0x03 {
        Some(Class::DisplayController)
    } else if raw == 0x04 {
        Some(Class::MultimediaDevice)
    } else if raw == 0x05 {
        Some(Class::MemoryController)
    } else if raw == 0x06 {
        Some(Class::BridgeDevice)
    } else if raw == 0x07 {
        Some(Class::SimpleCommunicationController)
    } else if raw == 0x08 {
        Some(Class::BaseSystemPeripheral)
    } else if raw == 0x09 {
        Some(Class::InputDevice)
    } else if raw == 0x0A {
        Some(Class::DockingStation)
    } else if raw == 0x0B {
        Some(Class::Processor)
    } else if raw == 0x0C {
        Some(Class::SerialBus)
    } else if raw == 0x0D {
        Some(Class::WirelessController)
    } else if raw == 0x0E {
        Some(Class::IntelligentIoController)
    } else if raw == 0x0F {
        Some(Class::SatelliteCommunicationController)
    } else if raw == 0x10 {
        Some(Class::EncryptionController)
    } else if raw == 0x11 {
        Some(Class::SignalProcessingController)
    } else if raw == 0x12 {
        Some(Class::ProcessingAccelerator)
    } else if raw == 0x13 {
        Some(Class::NonEssentialInstrumentation)
    } else if raw == 0x40 {
        Some(Class::CoProcessor)
    } else if raw == 0xFF {
        Some(Class::VendorSpecific)
    } else {
        None
    }
}

impl Class {
    pub fn from_raw(raw: u8) -> (r: Option<Self>)
        ensures
            r == class_from_code(raw),
    {
        match raw {
            0x00 => Some(Self::Unclassified),
            0x01 => Some(Self::MassStorageController),
            0x02 => Some(Self::NetworkController),
            0x03 => Some(Self::DisplayController),
            0x04 => Some(Self::MultimediaDevice),
            0x05 => Some(Self::MemoryController),
            0x06 => Some(Self::BridgeDevice),
            0x07 => Some(Self::SimpleCommunicationController),
            0x08 => Some(Self::BaseSystemPeripheral),
            0x09 => Some(Self::InputDevice),
            0x0A => Some(Self::DockingStation),
            0x0B => Some(Self::Processor),
            0x0C => Some(Self::SerialBus),
            0x0D => Some(Self::WirelessController),
            0x0E => Some(Self::IntelligentIoController),
            0x0F => Some(Self::SatelliteCommunicationController),
            0x10 => Some(Self::EncryptionController),
            0x11 => Some(Self::SignalProcessingController),
            0x12 => Some(Self::ProcessingAccelerator),
            0x13 => Some(Self::NonEssentialInstrumentation),
            0x40 => Some(Self::CoProcessor),
            0xFF => Some(Self::VendorSpecific),
            _ => None,
        }
    }

    pub fn into_raw(self) -> (raw: u8)
        ensures
            raw == class_code(self),
    {
        match self {
            Self::Unclassified => 0x00,
            Self::MassStorageController => 0x01,
            Self::NetworkController => 0x02,
            Self::DisplayController => 0x03,
            Self::MultimediaDevice => 0x04,
            Self::MemoryController => 0x05,
            Self::BridgeDevice => 0x06,
            Self::SimpleCommunicationController => 0x07,
            Self::BaseSystemPeripheral => 0x08,
            Self::InputDevice => 0x09,
            Self::DockingStation => 0x0A,
            Self::Processor => 0x0B,
            Self::SerialBus => 0x0C,
            Self::WirelessController => 0x0D,
            Self::IntelligentIoController => 0x0E,
            Self::SatelliteCommunicationController => 0x0F,
            Self::EncryptionController => 0x10,
            Self::SignalProcessingController => 0x11,
            Self::ProcessingAccelerator => 0x12,
            Self::NonEssentialInstrumentation => 0x13,
            Self::CoProcessor => 0x40,
            Self::VendorSpecific => 0xFF,
        }
    }
}

/// Decoding a class's code gives it back, and a code that decodes to a
/// class is that class's code.
pub proof fn lemma_class_code_roundtrip(c: Class, raw: u8)
    ensures
        class_from_code(class_code(c)) == Some(c),
        class_from_code(raw) == Some(c) ==> class_code(c) == raw,
{
}

} // verus!
