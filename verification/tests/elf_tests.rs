use rhubarb::elf::{
    ElfFile, Header, ObjectFileType, SectionData, SectionHeaderType, SymbolBinding, SymbolType,
    SymbolVisibility,
};

fn push_u16(v: &mut Vec<u8>, x: u16) {
    v.extend_from_slice(&x.to_le_bytes());
}
fn push_u32(v: &mut Vec<u8>, x: u32) {
    v.extend_from_slice(&x.to_le_bytes());
}
fn push_u64(v: &mut Vec<u8>, x: u64) {
    v.extend_from_slice(&x.to_le_bytes());
}

#[allow(clippy::too_many_arguments)]
fn section(v: &mut Vec<u8>, name: u32, ty: u32, flags: u64, offset: u64, size: u64, link: u32, entsize: u64) {
    push_u32(v, name);
    push_u32(v, ty);
    push_u64(v, flags);
    push_u64(v, 0);
    push_u64(v, offset);
    push_u64(v, size);
    push_u32(v, link);
    push_u32(v, 0);
    push_u64(v, 1);
    push_u64(v, entsize);
}

/// A relocatable object with a `.text` section, a symbol table with one
/// global function `main`, and the string tables.
fn object() -> Vec<u8> {
    let shstrtab: &[u8] = b"\0.shstrtab\0.symtab\0.strtab\0.text\0";
    let strtab: &[u8] = b"\0main\0";
    let text: &[u8] = &[0xc3, 0x90, 0x90, 0x90, 0x90, 0x90, 0x90, 0x90];
    let shstrtab_off = 64u64;
    let strtab_off = shstrtab_off + shstrtab.len() as u64;
    let text_off = strtab_off + strtab.len() as u64;
    let symtab_off = text_off + text.len() as u64;
    let symtab_len = 48u64;
    let shoff = symtab_off + symtab_len;

    let mut v = Vec::new();
    v.extend_from_slice(&[0x7f, b'E', b'L', b'F', 2, 1, 1, 0, 0, 0, 0, 0, 0, 0, 0, 0]);
    push_u16(&mut v, 1); // relocatable
    push_u16(&mut v, 0x3e);
    push_u32(&mut v, 1);
    push_u64(&mut v, 0);
    push_u64(&mut v, 0);
    push_u64(&mut v, shoff);
    push_u32(&mut v, 0);
    push_u16(&mut v, 64);
    push_u16(&mut v, 0);
    push_u16(&mut v, 0);
    push_u16(&mut v, 64);
    push_u16(&mut v, 5);
    push_u16(&mut v, 1);
    assert_eq!(v.len(), 64);
    v.extend_from_slice(shstrtab);
    v.extend_from_slice(strtab);
    v.extend_from_slice(text);
    // The null symbol, then `main`: global function in section 4.
    v.extend_from_slice(&[0; 24]);
    push_u32(&mut v, 1);
    v.push(0x12);
    v.push(0);
    push_u16(&mut v, 4);
    push_u64(&mut v, 0);
    push_u64(&mut v, 1);
    assert_eq!(v.len() as u64, shoff);
    section(&mut v, 0, 0, 0, 0, 0, 0, 0);
    section(&mut v, 1, 3, 0, shstrtab_off, shstrtab.len() as u64, 0, 0);
    section(&mut v, 11, 2, 0, symtab_off, symtab_len, 3, 24);
    section(&mut v, 19, 3, 0, strtab_off, strtab.len() as u64, 0, 0);
    section(&mut v, 27, 1, 0x6, text_off, text.len() as u64, 0, 0);
    v
}

#[test]
fn header_errors() {
    assert_eq!(Header::parse(&[0x7f, b'E']).err(), Some("File is shorter than ELF ident"));
    assert_eq!(Header::parse(&[0; 20]).err(), Some("File is shorter than ELF header"));
    assert_eq!(Header::parse(&[0; 64]).err(), Some("Invalid magic number"));
    let mut bytes = object();
    bytes[4] = 1;
    assert_eq!(Header::parse(&bytes).err(), Some("Invalid class"));
}

#[test]
fn parses_an_object_file() {
    let bytes = object();
    let file = ElfFile::new(&bytes).ok().unwrap();
    assert_eq!(file.header.get_type(), ObjectFileType::Relocatable);
    assert!(file.header.ident.is_little_endian());
    assert_eq!(file.header.body.sh_count, 5);

    let names: Vec<Option<Vec<u8>>> = {
        let mut it = file.section_iter();
        let mut names = Vec::new();
        while let Some(h) = it.next() {
            names.push(h.get_name(&file).ok().map(|n| n.to_vec()));
        }
        names
    };
    assert_eq!(
        names,
        vec![
            None,
            Some(b".shstrtab".to_vec()),
            Some(b".symtab".to_vec()),
            Some(b".strtab".to_vec()),
            Some(b".text".to_vec())
        ]
    );

    let text = file.find_section_by_name(".text").unwrap();
    assert_eq!(text.get_type().ok(), Some(SectionHeaderType::ProgBits));
    assert_eq!(text.size(), 8);
    assert_eq!(text.raw_data(&file)[0], 0xc3);
    assert!(file.find_section_by_name(".data").is_none());

    let symbols = file.get_symbol_table().ok().unwrap();
    assert_eq!(symbols.len(), 2);
    let main = symbols[1];
    assert_eq!(main.get_name(&file).ok(), Some("main"));
    assert_eq!(main.get_type().ok(), Some(SymbolType::Func));
    assert_eq!(main.get_binding().ok(), Some(SymbolBinding::Global));
    assert_eq!(main.get_visibility(), SymbolVisibility::Default);
    assert_eq!(main.shndx(), 4);
    assert_eq!(main.size(), 1);
    let home = main.get_section_header(&file, 1).ok().unwrap();
    assert_eq!(home.get_name(&file).ok(), Some(&b".text"[..]));

    let symtab = file.get_section_header(2).ok().unwrap();
    match symtab.get_data(&file).ok().unwrap() {
        SectionData::SymbolTable(entries) => assert_eq!(entries.len(), 2),
        _ => panic!("not a symbol table"),
    }
    assert_eq!(file.get_string(1).ok(), Some("main"));
    assert!(file.get_section_header(9).is_err());
}
