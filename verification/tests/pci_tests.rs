use rhubarb::pci::{
    bar_from_words, bar_is_io, bar_probe_kind, bar_memory_type, bar_offset, capabilities_start, config_address, device_present, ids_from_word, msix_offset,
    Bar, BarProbe, BarProbeKind, Capability, Device, HeaderType,
};
use rhubarb::pci_capability::Capability as CapabilityKind;
use rhubarb::pci_class::Class;

#[test]
fn header_type_works() {
    let a = HeaderType(0b1000_0001);
    assert!(a.multiple_functions());
    assert_eq!(a.get(), 1);

    let b = HeaderType(0b0000_0010);
    assert!(!b.multiple_functions());
    assert_eq!(b.get(), 2);
}

#[test]
fn header_type_kinds() {
    assert!(HeaderType(0x80).is_standard());
    assert!(HeaderType(0x01).is_pci_bridge());
    assert!(HeaderType(0x82).is_cardbus_bridge());
    assert!(!HeaderType(0x03).is_standard());
}

#[test]
fn config_addresses() {
    assert_eq!(config_address(0, 0, 0, 0), 0x8000_0000);
    assert_eq!(config_address(1, 2, 3, 0x13), 0x8001_1310);
}

#[test]
fn devices_from_configuration_words() {
    assert_eq!(ids_from_word(0x1000_1AF4), (0x1000, 0x1AF4));
    let d = Device::from_config_words(0, 3, 0x1000_1AF4, 0x0200_0000, 0x0080_0000, 0x0000_010B)
        .unwrap();
    assert_eq!(d.vendor_id, 0x1AF4);
    assert_eq!(d.device_id, 0x1000);
    assert_eq!(d.class, 0x0200);
    assert!(d.header_type.multiple_functions());
    assert_eq!(d.interrupt_line, 0x0B);
    assert_eq!(d.interrupt_pin, 0x01);
    assert_eq!(d.name(), "Virtio network device");
    assert!(Device::from_config_words(0, 3, 0xFFFF_FFFF, 0, 0, 0).is_none());
    let intel = Device::from_config_words(0, 0, 0x1237_8086, 0, 0, 0).unwrap();
    assert_eq!(intel.name(), "82441FX PMC [Natoma]");
    let other = Device::from_config_words(0, 0, 0x0001_0002, 0, 0, 0).unwrap();
    assert_eq!(other.name(), "Unknown device");
}

#[test]
fn base_address_registers() {
    assert_eq!(bar_offset(0), Some(0x10));
    assert_eq!(bar_offset(5), Some(0x24));
    assert_eq!(bar_offset(6), None);
    assert!(bar_is_io(0xC001));
    assert!(!bar_is_io(0xFEBF_0000));
    assert_eq!(bar_memory_type(0xFEBF_0004), 2);
    match Bar::io_from_word(0xC041) {
        Bar::Io { port } => assert_eq!(port, 0xC040),
        _ => panic!("not an I/O range"),
    }
    match Bar::mem32_from_probe(0xFEBF_0008, 0xFFFF_F000).unwrap() {
        Bar::Mem32 { address, size, prefetchable } => {
            assert_eq!(address, 0xFEBF_0000);
            assert_eq!(size, 0x1000);
            assert!(prefetchable);
        }
        _ => panic!("not a 32-bit range"),
    }
    assert!(Bar::mem32_from_probe(0xFEBF_0000, 0).is_none());
    match Bar::mem64_from_probe(0xE000_000C, 0x1, 0xFFFF_C00C, 0xFFFF_FFFF) {
        Bar::Mem64 { address, size, prefetchable } => {
            assert_eq!(address, 0x1_E000_0000);
            assert_eq!(size, 0x4000);
            assert!(prefetchable);
        }
        _ => panic!("not a 64-bit range"),
    }
    match Bar::mem64_from_probe(0x0000_0004, 0x2, 0x0000_0004, 0xFFFF_FFFE) {
        Bar::Mem64 { address, size, .. } => {
            assert_eq!(address, 0x2_0000_0000);
            assert_eq!(size, 0x2_0000_0000);
        }
        _ => panic!("not a 64-bit range"),
    }
}

#[test]
fn capability_lists() {
    assert_eq!(capabilities_start(0x0000_0043), 0x40);
    let (cap, next) = Capability::from_word(0x40, 0x0050_6011);
    assert_eq!(cap.id, 0x11);
    assert_eq!(cap.offset, 0x40);
    assert_eq!(next, 0x60);
}

#[test]
fn class_and_capability_codes() {
    let c = Class::from_raw(0x02).unwrap();
    assert_eq!(c.into_raw(), 0x02);
    let k = CapabilityKind::from_raw(0x11).unwrap();
    assert_eq!(k.into_raw(), 0x11);
}

#[test]
fn msix_offset_finds_the_first_entry() {
    let caps = vec![
        Capability { id: 0x05, offset: 0x40 },
        Capability { id: 0x11, offset: 0x50 },
        Capability { id: 0x11, offset: 0x70 },
    ];
    assert_eq!(msix_offset(&caps), Some(0x50));
    assert_eq!(msix_offset(&caps[..1]), None);
    assert_eq!(msix_offset(&[]), None);
}

#[test]
fn bar_from_words_decides_like_the_driver() {
    let none = BarProbe { address_upper: 0, readback_low: 0, readback_high: 0 };
    assert_eq!(bar_probe_kind(0, 0xC001), BarProbeKind::Skip);
    assert_eq!(bar_probe_kind(0, 0xFEBF_0008), BarProbeKind::Low);
    assert_eq!(bar_probe_kind(4, 0xE000_000C), BarProbeKind::Both);
    assert_eq!(bar_probe_kind(5, 0xE000_000C), BarProbeKind::Skip);
    assert_eq!(bar_probe_kind(6, 0xFEBF_0008), BarProbeKind::Skip);
    match bar_from_words(0, 0xC001, none) {
        Some(Bar::Io { port }) => assert_eq!(port, 0xC000),
        other => panic!("{other:?}"),
    }
    let probe32 = BarProbe { address_upper: 0, readback_low: 0xFFFF_F000, readback_high: 0 };
    match bar_from_words(1, 0xFEBF_0008, probe32) {
        Some(Bar::Mem32 { address, size, prefetchable }) => {
            assert_eq!(address, 0xFEBF_0000);
            assert_eq!(size, 0x1000);
            assert!(prefetchable);
        }
        other => panic!("{other:?}"),
    }
    assert!(bar_from_words(1, 0xFEBF_0000, none).is_none());
    let probe64 = BarProbe { address_upper: 0x1, readback_low: 0xFFFF_C00C, readback_high: 0xFFFF_FFFF };
    match bar_from_words(2, 0xE000_000C, probe64) {
        Some(Bar::Mem64 { address, size, prefetchable }) => {
            assert_eq!(address, 0x1_E000_0000);
            assert_eq!(size, 0x4000);
            assert!(prefetchable);
        }
        other => panic!("{other:?}"),
    }
    assert!(bar_from_words(5, 0xE000_000C, probe64).is_none());
    assert!(bar_from_words(6, 0xC001, none).is_none());
}

#[test]
fn device_present_reads_the_vendor_id() {
    assert!(!device_present(0xFFFF_FFFF));
    assert!(!device_present(0x1234_FFFF));
    assert!(device_present(0x1000_1AF4));
}
