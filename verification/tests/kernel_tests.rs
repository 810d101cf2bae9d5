use rhubarb::boot_info::{heap_region, MemoryRegion, MemoryRegionKind};
use rhubarb::elf::Rela;
use rhubarb::layout::{
    ArrayLayout, DataLayout, DataType, ReferenceLayout, ReferenceType, SizedDataLayout, SizedDataType, SliceLayout,
};
use rhubarb::loader::{write_relocation, R_X86_64_32, R_X86_64_64, R_X86_64_PC32, R_X86_64_PC64};
use rhubarb::paging::{PageAllocator, LEVEL_4_SIZE};
use rhubarb::rtc::{convert_bcd, Time};
use rhubarb::serial::SerialPort;

#[test]
fn page_allocator_hands_out_first_fit() {
    let mut a = PageAllocator::new();
    // Entry 0 is taken from the start.
    assert_eq!(a.get_free_address(1), 0x0000_0080_0000_0000);
    assert_eq!(a.get_free_address(LEVEL_4_SIZE + 1), 0x0000_0100_0000_0000);
    assert_eq!(a.get_free_address(LEVEL_4_SIZE), 0x0000_0200_0000_0000);
    // Fill the lower half; the next entry is in the upper, sign-extended half.
    assert_eq!(a.get_free_address(LEVEL_4_SIZE * 251), 0x0000_0280_0000_0000);
    assert_eq!(a.get_free_address(1), 0xFFFF_8000_0000_0000);
}

#[test]
fn rtc_registers_decode() {
    assert_eq!(convert_bcd(0x59), 59);
    assert_eq!(convert_bcd(0x07), 7);
    // BCD, 24-hour clock: the hour is shifted by twelve.
    let t = Time::from_registers(0x30, 0x45, 0x01, 0x15, 0x08, 0x24, 0x02);
    assert_eq!(t, Time { year: 24, month: 8, day: 15, hour: 13, minute: 45, second: 30 });
    // Binary, 12-hour clock, before noon.
    let t = Time::from_registers(30, 45, 9, 15, 8, 24, 0x04);
    assert_eq!(t, Time { year: 24, month: 8, day: 15, hour: 9, minute: 45, second: 30 });
    // BCD, 12-hour clock, after noon.
    let t = Time::from_registers(0x00, 0x00, 0x83, 0x01, 0x01, 0x00, 0x00);
    assert_eq!(t.hour, 15);
}

#[test]
fn serial_bytes_on_the_wire() {
    let port = SerialPort(0x3F8);
    assert_eq!(port.write(b'a'), vec![b'a']);
    assert_eq!(port.write(b'\n'), vec![b'\r', b'\n']);
    assert_eq!(port.write(0x7F), vec![0x08, b' ', 0x08]);
    assert_eq!(port.write(0x08), vec![0x08, b' ', 0x08]);
    assert!(port.line_output_empty(0x60));
    assert!(!port.line_output_empty(0x01));
}

#[test]
fn layouts_convert_between_sized_and_unsized() {
    assert_eq!(DataLayout::Unit.to_sized(), Some(SizedDataLayout::Unit));
    let slice = DataLayout::Slice(SliceLayout { element_layout: SizedDataLayout::Unit });
    assert_eq!(slice.to_sized(), None);
    let block = core::alloc::Layout::new::<u32>();
    assert_eq!(SizedDataLayout::Block(block).to_unsized(), DataLayout::Block(block));
}

fn rela(kind: u32, addend: u64) -> Rela {
    Rela { offset: 0, info: (7u64 << 32) | kind as u64, addend }
}

#[test]
fn relocations_are_written_little_endian() {
    let mut target = [0u8; 16];
    write_relocation(&rela(R_X86_64_64, 0x10), &mut target, 4, 0x1000, 0x5000).unwrap();
    assert_eq!(&target[4..12], &0x1010u64.to_le_bytes());
    assert_eq!(&target[..4], &[0, 0, 0, 0]);

    let mut target = [0u8; 8];
    write_relocation(&rela(R_X86_64_32, 4), &mut target, 0, 0x1234_5678, 0).unwrap();
    assert_eq!(&target[..4], &0x1234_567Cu32.to_le_bytes());

    // PC-relative: the symbol at 0x1000, the place at 0x2004, addend -4.
    let mut target = [0u8; 8];
    write_relocation(&rela(R_X86_64_PC32, (-4i64) as u64), &mut target, 4, 0x1000, 0x2000).unwrap();
    assert_eq!(&target[4..8], &((0x1000i64 - 4 - 0x2004) as u32).to_le_bytes());

    let mut target = [0u8; 8];
    write_relocation(&rela(R_X86_64_PC64, 0), &mut target, 0, 0x3000, 0x1000).unwrap();
    assert_eq!(target, 0x2000u64.to_le_bytes());

    let mut target = [9u8; 8];
    assert_eq!(write_relocation(&rela(99, 0), &mut target, 0, 0, 0), Err("unsupported relocation type"));
    assert_eq!(target, [9u8; 8]);
}

#[test]
fn heap_region_is_the_last_largest_free_region() {
    let regions = [
        MemoryRegion { base: 0x1000, size: 0x4000, kind: MemoryRegionKind::Free },
        MemoryRegion { base: 0x8000, size: 0x9000, kind: MemoryRegionKind::Bootloader },
        MemoryRegion { base: 0x20000, size: 0x4000, kind: MemoryRegionKind::Free },
        MemoryRegion { base: 0x40000, size: 0x2000, kind: MemoryRegionKind::Uefi(7) },
    ];
    assert_eq!(heap_region(&regions), Some(regions[2]));
    assert_eq!(heap_region(&regions[1..2]), None);
    assert_eq!(heap_region(&[]), None);
}

#[test]
fn ref_layout_basics() {
    assert_eq!(
        <&[u8]>::reference_layout(),
        ReferenceLayout::Shared(DataLayout::Slice(SliceLayout {
            element_layout: u8::sized_layout(),
        })),
    );
    assert_eq!(
        <&mut [u8]>::reference_layout(),
        ReferenceLayout::Unique(DataLayout::Slice(SliceLayout {
            element_layout: u8::sized_layout(),
        })),
    );
}

#[test]
fn integer_and_array_layouts() {
    assert_eq!(u8::data_layout(), i8::data_layout());
    assert_eq!(u16::data_layout(), i16::data_layout());
    assert_eq!(u32::data_layout(), i32::data_layout());
    assert_eq!(u64::data_layout(), i64::data_layout());
    assert_eq!(u128::data_layout(), i128::data_layout());
    assert_eq!(u8::sized_layout().to_unsized(), u8::data_layout());
    assert_eq!(
        <[u16; 3]>::sized_layout(),
        SizedDataLayout::Array(ArrayLayout { length: 3, element_layout: Box::new(u16::sized_layout()) }),
    );
    assert_eq!(
        <&[u32; 2]>::reference_layout(),
        ReferenceLayout::Shared(<[u32; 2]>::data_layout()),
    );
}
