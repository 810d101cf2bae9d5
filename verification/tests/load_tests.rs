use std::collections::BTreeSet;
use rhubarb::elf::ElfFile;
use rhubarb::load_plan::{
    demangled_section_name, global_section_indices, plan_object_sections, relocation_jobs,
    source_section_name, MappingKind, SectionFill,
};
use rhubarb::loader::{section_mapping_lens, SectionKind};

fn push_u16(v: &mut Vec<u8>, x: u16) {
    v.extend_from_slice(&x.to_le_bytes());
}
fn push_u32(v: &mut Vec<u8>, x: u32) {
    v.extend_from_slice(&x.to_le_bytes());
}
fn push_u64(v: &mut Vec<u8>, x: u64) {
    v.extend_from_slice(&x.to_le_bytes());
}

struct Sec {
    name: u32,
    ty: u32,
    flags: u64,
    offset: u64,
    size: u64,
    link: u32,
    align: u64,
    entsize: u64,
}

fn section(v: &mut Vec<u8>, s: &Sec) {
    push_u32(v, s.name);
    push_u32(v, s.ty);
    push_u64(v, s.flags);
    push_u64(v, 0);
    push_u64(v, s.offset);
    push_u64(v, s.size);
    push_u32(v, s.link);
    push_u32(v, 0);
    push_u64(v, s.align);
    push_u64(v, s.entsize);
}

/// A relocatable object with text, read-only, data, bss and unwind sections
/// and one global function in the text section.
fn object() -> (Vec<u8>, u64) {
    let shstrtab: &[u8] =
        b"\0.shstrtab\0.symtab\0.strtab\0.text.foo\0.rodata.bar\0.data.baz\0.bss.qux\0.eh_frame\0.rela.text.foo\0";
    let name = |s: &str| -> u32 {
        let pos = shstrtab.windows(s.len()).position(|w| w == s.as_bytes()).unwrap();
        pos as u32
    };
    let strtab: &[u8] = b"\0foo\0";
    let text: [u8; 8] = [0xc3; 8];
    let rodata: [u8; 5] = *b"hello";
    let data: [u8; 3] = [1, 2, 3];
    let eh: [u8; 4] = [0; 4];

    let mut body = Vec::new();
    let base = 64u64;
    let shstrtab_off = base;
    body.extend_from_slice(shstrtab);
    let strtab_off = base + body.len() as u64;
    body.extend_from_slice(strtab);
    while body.len() % 16 != 0 {
        body.push(0);
    }
    let text_off = base + body.len() as u64;
    body.extend_from_slice(&text);
    let rodata_off = base + body.len() as u64;
    body.extend_from_slice(&rodata);
    let data_off = base + body.len() as u64;
    body.extend_from_slice(&data);
    let eh_off = base + body.len() as u64;
    body.extend_from_slice(&eh);
    let symtab_off = base + body.len() as u64;
    body.extend_from_slice(&[0; 24]);
    let mut sym = Vec::new();
    push_u32(&mut sym, 1);
    sym.push(0x12);
    sym.push(0);
    push_u16(&mut sym, 4);
    push_u64(&mut sym, 0);
    push_u64(&mut sym, 8);
    body.extend_from_slice(&sym);
    let rela_off = base + body.len() as u64;
    push_u64(&mut body, 1);
    push_u64(&mut body, (1u64 << 32) | 2);
    push_u64(&mut body, (-4i64) as u64);
    let shoff = base + body.len() as u64;

    let mut v = Vec::new();
    v.extend_from_slice(&[0x7f, b'E', b'L', b'F', 2, 1, 1, 0, 0, 0, 0, 0, 0, 0, 0, 0]);
    push_u16(&mut v, 1);
    push_u16(&mut v, 0x3e);
    push_u32(&mut v, 1);
    push_u64(&mut v, 0);
    push_u64(&mut v, 0);
    push_u64(&mut v, shoff);
    push_u32(&mut v, 0);
    push_u16(&mut v, 64);
    push_u16(&mut v, 0);
    push_u16(&mut v, 0);
    push_u16(&mut v, 64);
    push_u16(&mut v, 10);
    push_u16(&mut v, 1);
    v.extend_from_slice(&body);
    let z = |name, ty, flags, offset, size, align| Sec { name, ty, flags, offset, size, link: 0, align, entsize: 0 };
    section(&mut v, &z(0, 0, 0, 0, 0, 0));
    section(&mut v, &z(name(".shstrtab"), 3, 0, shstrtab_off, shstrtab.len() as u64, 1));
    section(&mut v, &Sec { name: name(".symtab"), ty: 2, flags: 0, offset: symtab_off, size: 48, link: 3, align: 8, entsize: 24 });
    section(&mut v, &z(name(".strtab"), 3, 0, strtab_off, strtab.len() as u64, 1));
    section(&mut v, &z(name(".text.foo"), 1, 0x6, text_off, 8, 16));
    section(&mut v, &z(name(".rodata.bar"), 1, 0x2, rodata_off, 5, 4));
    section(&mut v, &z(name(".data.baz"), 1, 0x3, data_off, 3, 8));
    section(&mut v, &z(name(".bss.qux"), 8, 0x3, data_off, 16, 8));
    section(&mut v, &z(name(".eh_frame"), 1, 0x2, eh_off, 4, 8));
    section(&mut v, &Sec { name: name(".rela.text.foo"), ty: 4, flags: 0, offset: rela_off, size: 24, link: 2, align: 8, entsize: 24 });
    // The relocations apply to section 4 (`sh_info`).
    let info_at = shoff as usize + 9 * 64 + 44;
    v[info_at..info_at + 4].copy_from_slice(&4u32.to_le_bytes());
    (v, text_off)
}

#[test]
fn mapping_lengths() {
    let (bytes, text_off) = object();
    let file = ElfFile::new(&bytes).ok().unwrap();
    let lens = section_mapping_lens(&file).unwrap();
    assert_eq!(lens, (text_off as usize + 16, 16, 24));
}

#[test]
fn sections_are_placed() {
    let (bytes, text_off) = object();
    let file = ElfFile::new(&bytes).ok().unwrap();
    let symbols = file.get_symbol_table().ok().unwrap();
    let globals = global_section_indices(&symbols);
    assert_eq!(globals, BTreeSet::from([4]));
    let plan = plan_object_sections(&file, &globals, (16, 24)).unwrap();
    let summary: Vec<(u16, Vec<u8>, SectionKind, usize, bool, MappingKind, usize, SectionFill)> = plan
        .iter()
        .map(|p| (p.index, p.name.clone(), p.kind, p.size, p.global, p.mapping, p.mapping_offset, p.fill))
        .collect();
    assert_eq!(
        summary,
        vec![
            (4, b"foo".to_vec(), SectionKind::Text, 8, true, MappingKind::Executable, text_off as usize, SectionFill::Nothing),
            (5, b"bar".to_vec(), SectionKind::Rodata, 5, false, MappingKind::ReadOnly, 0, SectionFill::CopyFromFile),
            (6, b"baz".to_vec(), SectionKind::Data, 3, false, MappingKind::ReadWrite, 0, SectionFill::CopyFromFile),
            (7, b"qux".to_vec(), SectionKind::Bss, 16, false, MappingKind::ReadWrite, 8, SectionFill::Zeroes),
            (8, b".eh_frame".to_vec(), SectionKind::EhFrame, 4, false, MappingKind::ReadOnly, 8, SectionFill::CopyFromFile),
        ]
    );
}

#[test]
fn unhandled_and_thread_local_sections_are_refused() {
    let (mut bytes, _) = object();
    let shoff = u64::from_le_bytes(bytes[40..48].try_into().unwrap()) as usize;
    // Give the `.eh_frame` section (index 8) the TLS flag.
    let flags_at = shoff + 8 * 64 + 8;
    bytes[flags_at..flags_at + 8].copy_from_slice(&0x402u64.to_le_bytes());
    let file = ElfFile::new(&bytes).ok().unwrap();
    assert_eq!(
        plan_object_sections(&file, &BTreeSet::from([4]), (16, 24)).err(),
        Some("TODO: TLS section initialization")
    );

    let (mut bytes, _) = object();
    // Rename the `.eh_frame` section to `.strtab`, which the loader does not place.
    let name_at = shoff + 8 * 64;
    bytes[name_at..name_at + 4].copy_from_slice(&19u32.to_le_bytes());
    let file = ElfFile::new(&bytes).ok().unwrap();
    assert_eq!(plan_object_sections(&file, &BTreeSet::from([4]), (16, 24)).err(), Some("encountered unhandled section"));
}

#[test]
fn section_names_are_demangled() {
    assert_eq!(demangled_section_name(b"_ZN3foo3barE").unwrap(), "foo::bar");
    assert_eq!(demangled_section_name(b"plain_name").unwrap(), "plain_name");
    assert!(demangled_section_name(&[0xff, 0xfe]).is_none());
}

#[test]
fn relocations_are_listed_with_their_symbols() {
    let (bytes, _) = object();
    let file = ElfFile::new(&bytes).ok().unwrap();
    let symbols = file.get_symbol_table().ok().unwrap();
    let jobs = relocation_jobs(&file, &symbols);
    assert_eq!(jobs.len(), 1);
    assert_eq!(jobs[0].target_section, 4);
    assert_eq!(jobs[0].entry.get_offset(), 1);
    assert_eq!(jobs[0].entry.get_type(), 2);
    assert_eq!(jobs[0].symbol.shndx(), 4);
    assert_eq!(jobs[0].symbol.get_name(&file).ok(), Some("foo"));
}

#[test]
fn data_rel_ro_prefix_is_dropped() {
    assert_eq!(source_section_name(b".data.rel.ro.foo"), b"foo");
    assert_eq!(source_section_name(b".data.foo"), b".data.foo");
}
