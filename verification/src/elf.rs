//! # Executable and Linking Format (ELF)
//!
//! A reader of 64-bit ELF files. Every structure is decoded field by field
//! from the little-endian bytes of the file, at the offsets that the ELF
//! specification gives it.
use vstd::prelude::*;

use crate::bytes::{le_u16, le_u32, le_u64, read_u16_le, read_u32_le, read_u64_le};
use vstd::string::StringSliceAdditionalSpecFns;

verus! {

/// Size in bytes of the identification part of the ELF header.
pub const HEADER_IDENT_SIZE: usize = 16;

/// Size in bytes of the rest of the ELF header.
pub const HEADER_BODY_SIZE: usize = 48;

/// Size in bytes of a section header.
pub const SECTION_HEADER_SIZE: usize = 64;

/// Size in bytes of a symbol table entry.
pub const SYMBOL_TABLE_ENTRY_SIZE: usize = 24;

#[derive(Clone, Copy, Debug)]
pub struct ElfFile<'a> {
    pub input: &'a [u8],
    pub header: Header,
}

#[derive(Clone, Copy, Debug)]
pub struct Header {
    pub ident: HeaderIdent,
    pub body: HeaderBody,
}

#[derive(Clone, Copy, Debug)]
pub struct HeaderIdent {
    pub magic: [u8; 4],
    pub class: u8,
    pub data: u8,
    pub version: u8,
    pub os_abi: u8,
    pub abi_version: u8,
    pub padding: [u8; 7],
}

#[derive(Clone, Copy, Debug)]
pub struct HeaderBody {
    pub type_: u16,
    pub machine: u16,
    pub version: u32,
    pub entry_point: u64,
    pub ph_offset: u64,
    pub sh_offset: u64,
    pub flags: u32,
    pub header_size: u16,
    pub ph_entry_size: u16,
    pub ph_count: u16,
    pub sh_entry_size: u16,
    pub sh_count: u16,
    pub sh_str_index: u16,
}

/// The identification bytes `ident` was decoded from: the first 16 bytes of
/// the file.
pub open spec fn ident_decodes(ident: HeaderIdent, b: Seq<u8>) -> bool {
    &&& ident.magic@ == b.subrange(0, 4)
    &&& ident.class == b[4]
    &&& ident.data == b[5]
    &&& ident.version == b[6]
    &&& ident.os_abi == b[7]
    &&& ident.abi_version == b[8]
    &&& ident.padding@ == b.subrange(9, 16)
}

/// The header fields that follow the identification bytes, from byte 16 on.
pub open spec fn header_body_at(b: Seq<u8>) -> HeaderBody {
    HeaderBody {
        type_: le_u16(b, 16) as u16,
        machine: le_u16(b, 18) as u16,
        version: le_u32(b, 20) as u32,
        entry_point: le_u64(b, 24) as u64,
        ph_offset: le_u64(b, 32) as u64,
        sh_offset: le_u64(b, 40) as u64,
        flags: le_u32(b, 48) as u32,
        header_size: le_u16(b, 52) as u16,
        ph_entry_size: le_u16(b, 54) as u16,
        ph_count: le_u16(b, 56) as u16,
        sh_entry_size: le_u16(b, 58) as u16,
        sh_count: le_u16(b, 60) as u16,
        sh_str_index: le_u16(b, 62) as u16,
    }
}

/// Whether the bytes start with the ELF magic number `7F 'E' 'L' 'F'`.
pub open spec fn has_elf_magic(b: Seq<u8>) -> bool {
    b[0] == 0x7f && b[1] == 0x45 && b[2] == 0x4c && b[3] == 0x46
}

/// Whether the bytes hold a header that [`Header::parse`] accepts: long
/// enough, with the magic number, and of the 64-bit class.
pub open spec fn header_valid(b: Seq<u8>) -> bool {
    b.len() >= 64 && has_elf_magic(b) && b[4] == 2
}

/// The message with which [`Header::parse`] rejects the bytes, if it does.
pub open spec fn header_error(b: Seq<u8>) -> Option<Seq<char>> {
    if b.len() < 16 {
        Some("File is shorter than ELF ident"@)
    } else if b.len() < 64 {
        Some("File is shorter than ELF header"@)
    } else if !has_elf_magic(b) {
        Some("Invalid magic number"@)
    } else if b[4] != 2 {
        Some("Invalid class"@)
    } else {
        None
    }
}

impl Header {
    pub fn parse(bytes: &[u8]) -> (r: Result<Self, &'static str>)
        ensures
            r is Ok <==> header_valid(bytes@),
            r is Ok <==> header_error(bytes@) is None,
            r matches Err(e) ==> Some(e@) == header_error(bytes@),
            r matches Ok(h) ==> ident_decodes(h.ident, bytes@) && h.body == header_body_at(bytes@),
    {
        if bytes.len() < HEADER_IDENT_SIZE {
            return Err("File is shorter than ELF ident");
        }
        if bytes.len() < HEADER_IDENT_SIZE + HEADER_BODY_SIZE {
            return Err("File is shorter than ELF header");
        }
        if bytes[0] != 0x7f || bytes[1] != 0x45 || bytes[2] != 0x4c || bytes[3] != 0x46 {
            return Err("Invalid magic number");
        }
        if bytes[4] != 2 {
            return Err("Invalid class");
        }
        let ident = HeaderIdent {
            magic: [bytes[0], bytes[1], bytes[2], bytes[3]],
            class: bytes[4],
            data: bytes[5],
            version: bytes[6],
            os_abi: bytes[7],
            abi_version: bytes[8],
            padding: [bytes[9], bytes[10], bytes[11], bytes[12], bytes[13], bytes[14], bytes[15]],
        };
        assert(ident.magic@ =~= bytes@.subrange(0, 4));
        assert(ident.padding@ =~= bytes@.subrange(9, 16));
        let body = HeaderBody {
            type_: read_u16_le(bytes, 16),
            machine: read_u16_le(bytes, 18),
            version: read_u32_le(bytes, 20),
            entry_point: read_u64_le(bytes, 24),
            ph_offset: read_u64_le(bytes, 32),
            sh_offset: read_u64_le(bytes, 40),
            flags: read_u32_le(bytes, 48),
            header_size: read_u16_le(bytes, 52),
            ph_entry_size: read_u16_le(bytes, 54),
            ph_count: read_u16_le(bytes, 56),
            sh_entry_size: read_u16_le(bytes, 58),
            sh_count: read_u16_le(bytes, 60),
            sh_str_index: read_u16_le(bytes, 62),
        };
        Ok(Header { ident, body })
    }

    pub fn get_type(&self) -> (t: ObjectFileType)
        ensures
            t == object_file_type(self.body.type_),
    {
        match self.body.type_ {
            0 => ObjectFileType::NoFileType,
            1 => ObjectFileType::Relocatable,
            2 => ObjectFileType::Executable,
            3 => ObjectFileType::SharedObject,
            4 => ObjectFileType::Core,
            x => ObjectFileType::ProcessorSpecific(x),
        }
    }
}

impl HeaderIdent {
    pub fn is_little_endian(&self) -> (b: bool)
        ensures
            b == (self.data == 1),
    {
        self.data == 1
    }
}

#[derive(Clone, Copy, Debug, Eq, PartialEq, Structural)]
pub enum ObjectFileType {
    NoFileType,
    Relocatable,
    Executable,
    SharedObject,
    Core,
    ProcessorSpecific(u16),
}

/// The object file type that the `e_type` field encodes.
pub open spec fn object_file_type(t: u16) -> ObjectFileType {
    if t == 0 {
        ObjectFileType::NoFileType
    } else if t == 1 {
        ObjectFileType::Relocatable
    } else if t == 2 {
        ObjectFileType::Executable
    } else if t == 3 {
        ObjectFileType::SharedObject
    } else if t == 4 {
        ObjectFileType::Core
    } else {
        ObjectFileType::ProcessorSpecific(t)
    }
}

/// The `e_type` codes of the ELF specification: 0 is ET_NONE, 1 ET_REL, 2
/// ET_EXEC, 3 ET_DYN and 4 ET_CORE; every other value is kept as it is.
pub proof fn lemma_object_file_type_codes(t: u16)
    ensures
        object_file_type(t) == ObjectFileType::NoFileType <==> t == 0,
        object_file_type(t) == ObjectFileType::Relocatable <==> t == 1,
        object_file_type(t) == ObjectFileType::Executable <==> t == 2,
        object_file_type(t) == ObjectFileType::SharedObject <==> t == 3,
        object_file_type(t) == ObjectFileType::Core <==> t == 4,
        t > 4 ==> object_file_type(t) == ObjectFileType::ProcessorSpecific(t),
{
}

impl<'a> ElfFile<'a> {
    pub fn new(input: &'a [u8]) -> (r: Result<ElfFile<'a>, &'static str>)
        ensures
            r is Ok <==> header_valid(input@),
            r matches Err(e) ==> Some(e@) == header_error(input@),
            r matches Ok(f) ==> f.input == input && ident_decodes(f.header.ident, input@)
                && f.header.body == header_body_at(input@),
    {
        let header = Header::parse(input)?;
        Ok(Self { input, header })
    }
}

} // verus!

verus! {

pub const SHN_UNDEF: u16 = 0;
pub const SHN_LORESERVE: u16 = 0xff00;
pub const SHN_LOPROC: u16 = 0xff00;
pub const SHN_HIPROC: u16 = 0xff1f;
pub const SHN_LOOS: u16 = 0xff20;
pub const SHN_HIOS: u16 = 0xff3f;
pub const SHN_ABS: u16 = 0xfff1;
pub const SHN_COMMON: u16 = 0xfff2;
pub const SHN_XINDEX: u16 = 0xffff;
pub const SHN_HIRESERVE: u16 = 0xffff;

pub const SHF_WRITE: u64 = 0x1;
pub const SHF_ALLOC: u64 = 0x2;
pub const SHF_EXECINSTR: u64 = 0x4;
pub const SHF_MERGE: u64 = 0x10;
pub const SHF_STRINGS: u64 = 0x20;
pub const SHF_INFO_LINK: u64 = 0x40;
pub const SHF_LINK_ORDER: u64 = 0x80;
pub const SHF_OS_NONCONFORMING: u64 = 0x100;
pub const SHF_GROUP: u64 = 0x200;
pub const SHF_TLS: u64 = 0x400;
pub const SHF_COMPRESSED: u64 = 0x800;
pub const SHF_MASKOS: u64 = 0x0ff00000;
pub const SHF_MASKPROC: u64 = 0xf0000000;

/// The flags SHF_WRITE, SHF_EXECINSTR and SHF_TLS are bits 0, 2 and 10 of
/// `sh_flags`.
pub proof fn lemma_section_flag_bits(flags: u64)
    ensures
        (flags & SHF_WRITE == SHF_WRITE) == (flags % 2 == 1),
        (flags & SHF_EXECINSTR == SHF_EXECINSTR) == ((flags / 4) % 2 == 1),
        (flags & SHF_TLS == SHF_TLS) == ((flags / 1024) % 2 == 1),
{
    assert(((flags & 1u64 == 1u64) == (flags % 2 == 1)) && ((flags & 4u64 == 4u64) == ((flags / 4)
        % 2 == 1)) && ((flags & 1024u64 == 1024u64) == ((flags / 1024) % 2 == 1))) by (bit_vector);
}

pub const SHT_LOOS: u32 = 0x60000000;
pub const SHT_HIOS: u32 = 0x6fffffff;
pub const SHT_LOPROC: u32 = 0x70000000;
pub const SHT_HIPROC: u32 = 0x7fffffff;
pub const SHT_LOUSER: u32 = 0x80000000;
pub const SHT_HIUSER: u32 = 0xffffffff;

/// A section header, decoded from the 64 bytes of an `Elf64_Shdr`.
#[derive(Clone, Copy, Debug)]
pub struct SectionHeader {
    pub name: u32,
    pub type_: u32,
    pub flags: u64,
    pub address: u64,
    pub offset: u64,
    pub size: u64,
    pub link: u32,
    pub info: u32,
    pub align: u64,
    pub entry_size: u64,
}

/// The section header whose bytes start at `p`.
pub open spec fn section_header_at(b: Seq<u8>, p: int) -> SectionHeader {
    SectionHeader {
        name: le_u32(b, p) as u32,
        type_: le_u32(b, p + 4) as u32,
        flags: le_u64(b, p + 8) as u64,
        address: le_u64(b, p + 16) as u64,
        offset: le_u64(b, p + 24) as u64,
        size: le_u64(b, p + 32) as u64,
        link: le_u32(b, p + 40) as u32,
        info: le_u32(b, p + 44) as u32,
        align: le_u64(b, p + 48) as u64,
        entry_size: le_u64(b, p + 56) as u64,
    }
}

/// Where the header of section `index` starts in the file.
pub open spec fn section_header_start(body: HeaderBody, index: int) -> int {
    index * body.sh_entry_size + body.sh_offset
}

/// Where the header of section `index` ends in the file.
pub open spec fn section_header_end(body: HeaderBody, index: int) -> int {
    section_header_start(body, index) + body.sh_entry_size
}

/// Whether [`SectionHeader::parse`] can look at section `index` of a file of
/// `len` bytes without failing an assertion or overflowing: the index is
/// below the reserved range, its bounds fit in 64 bits, and an entry that
/// lies inside the file is large enough to hold a section header.
pub open spec fn section_header_defined(len: int, body: HeaderBody, index: int) -> bool {
    &&& 0 <= index < SHN_LORESERVE
    &&& section_header_start(body, index) <= u64::MAX
    &&& section_header_end(body, index) <= usize::MAX
    &&& section_header_end(body, index) <= len ==> body.sh_entry_size >= SECTION_HEADER_SIZE
}

/// Section `index` as [`SectionHeader::parse`] reads it: `None` when its
/// header lies beyond the end of the file.
pub open spec fn section_at(input: Seq<u8>, body: HeaderBody, index: int) -> Option<SectionHeader> {
    if section_header_end(body, index) <= input.len() {
        Some(section_header_at(input, section_header_start(body, index)))
    } else {
        None
    }
}

#[derive(Clone, Copy, Debug, Eq, PartialEq, Structural)]
pub enum SectionHeaderType {
    Null,
    ProgBits,
    SymTab,
    StrTab,
    Rela,
    Hash,
    Dynamic,
    Note,
    NoBits,
    Rel,
    ShLib,
    DynSym,
    InitArray,
    FiniArray,
    PreInitArray,
    Group,
    SymTabShIndex,
    OsSpecific(u32),
    ProcessorSpecific(u32),
    User(u32),
}

/// The section type that the `sh_type` field encodes, if it is a valid one.
pub open spec fn section_type(t: u32) -> Option<SectionHeaderType> {
    if t == 0 {
        Some(SectionHeaderType::Null)
    } else if t == 1 {
        Some(SectionHeaderType::ProgBits)
    } else if t == 2 {
        Some(SectionHeaderType::SymTab)
    } else if t == 3 {
        Some(SectionHeaderType::StrTab)
    } else if t == 4 {
        Some(SectionHeaderType::Rela)
    } else if t == 5 {
        Some(SectionHeaderType::Hash)
    } else if t == 6 {
        Some(SectionHeaderType::Dynamic)
    } else if t == 7 {
        Some(SectionHeaderType::Note)
    } else if t == 8 {
        Some(SectionHeaderType::NoBits)
    } else if t == 9 {
        Some(SectionHeaderType::Rel)
    } else if t == 10 {
        Some(SectionHeaderType::ShLib)
    } else if t == 11 {
        Some(SectionHeaderType::DynSym)
    } else if t == 14 {
        Some(SectionHeaderType::InitArray)
    } else if t == 15 {
        Some(SectionHeaderType::FiniArray)
    } else if t == 16 {
        Some(SectionHeaderType::PreInitArray)
    } else if t == 17 {
        Some(SectionHeaderType::Group)
    } else if t == 18 {
        Some(SectionHeaderType::SymTabShIndex)
    } else if SHT_LOOS <= t <= SHT_HIOS {
        Some(SectionHeaderType::OsSpecific(t))
    } else if SHT_LOPROC <= t <= SHT_HIPROC {
        Some(SectionHeaderType::ProcessorSpecific(t))
    } else if SHT_LOUSER <= t {
        Some(SectionHeaderType::User(t))
    } else {
        None
    }
}

/// The `sh_type` codes of the ELF specification: SHT_NULL 0, SHT_PROGBITS 1,
/// SHT_SYMTAB 2, SHT_STRTAB 3, SHT_RELA 4, SHT_HASH 5, SHT_DYNAMIC 6,
/// SHT_NOTE 7, SHT_NOBITS 8, SHT_REL 9, SHT_SHLIB 10, SHT_DYNSYM 11,
/// SHT_INIT_ARRAY 14, SHT_FINI_ARRAY 15, SHT_PREINIT_ARRAY 16, SHT_GROUP 17
/// and SHT_SYMTAB_SHNDX 18; 12, 13 and the codes from 19 below the
/// OS-specific range are no valid type.
pub proof fn lemma_section_type_codes(t: u32)
    ensures
        section_type(t) == Some(SectionHeaderType::Null) <==> t == 0,
        section_type(t) == Some(SectionHeaderType::ProgBits) <==> t == 1,
        section_type(t) == Some(SectionHeaderType::SymTab) <==> t == 2,
        section_type(t) == Some(SectionHeaderType::StrTab) <==> t == 3,
        section_type(t) == Some(SectionHeaderType::Rela) <==> t == 4,
        section_type(t) == Some(SectionHeaderType::Hash) <==> t == 5,
        section_type(t) == Some(SectionHeaderType::Dynamic) <==> t == 6,
        section_type(t) == Some(SectionHeaderType::Note) <==> t == 7,
        section_type(t) == Some(SectionHeaderType::NoBits) <==> t == 8,
        section_type(t) == Some(SectionHeaderType::Rel) <==> t == 9,
        section_type(t) == Some(SectionHeaderType::ShLib) <==> t == 10,
        section_type(t) == Some(SectionHeaderType::DynSym) <==> t == 11,
        section_type(t) == Some(SectionHeaderType::InitArray) <==> t == 14,
        section_type(t) == Some(SectionHeaderType::FiniArray) <==> t == 15,
        section_type(t) == Some(SectionHeaderType::PreInitArray) <==> t == 16,
        section_type(t) == Some(SectionHeaderType::Group) <==> t == 17,
        section_type(t) == Some(SectionHeaderType::SymTabShIndex) <==> t == 18,
        section_type(t) is None <==> (t == 12 || t == 13 || 19 <= t < SHT_LOOS),
{
}

impl SectionHeader {
    /// Read the header of section `index`, as the file's header places it.
    pub fn parse(input: &[u8], header: Header, index: u16) -> (r: Result<Self, &'static str>)
        requires
            section_header_defined(input@.len() as int, header.body, index as int),
        ensures
            r is Ok <==> section_header_end(header.body, index as int) <= input@.len(),
            r matches Ok(sh) ==> Some(sh) == section_at(input@, header.body, index as int),
            r matches Err(e) ==> e@ == "File is shorter than section header offset"@,
    {
        let es = header.body.sh_entry_size;
        assert(index as u64 * es as u64 <= 0xffff * 0xffff) by (nonlinear_arith)
            requires
                index <= 0xffff,
                es <= 0xffff,
        ;
        let start = (index as u64 * es as u64 + header.body.sh_offset) as usize;
        let end = start + es as usize;
        if input.len() < end {
            return Err("File is shorter than section header offset");
        }
        Ok(
            SectionHeader {
                name: read_u32_le(input, start),
                type_: read_u32_le(input, start + 4),
                flags: read_u64_le(input, start + 8),
                address: read_u64_le(input, start + 16),
                offset: read_u64_le(input, start + 24),
                size: read_u64_le(input, start + 32),
                link: read_u32_le(input, start + 40),
                info: read_u32_le(input, start + 44),
                align: read_u64_le(input, start + 48),
                entry_size: read_u64_le(input, start + 56),
            },
        )
    }

    pub fn get_type(&self) -> (r: Result<SectionHeaderType, &'static str>)
        ensures
            r is Ok <==> section_type(self.type_) is Some,
            r matches Ok(t) ==> section_type(self.type_) == Some(t),
            r matches Err(e) ==> e@ == "Invalid section header type"@,
    {
        match self.type_ {
            0 => Ok(SectionHeaderType::Null),
            1 => Ok(SectionHeaderType::ProgBits),
            2 => Ok(SectionHeaderType::SymTab),
            3 => Ok(SectionHeaderType::StrTab),
            4 => Ok(SectionHeaderType::Rela),
            5 => Ok(SectionHeaderType::Hash),
            6 => Ok(SectionHeaderType::Dynamic),
            7 => Ok(SectionHeaderType::Note),
            8 => Ok(SectionHeaderType::NoBits),
            9 => Ok(SectionHeaderType::Rel),
            10 => Ok(SectionHeaderType::ShLib),
            11 => Ok(SectionHeaderType::DynSym),
            // sic.
            14 => Ok(SectionHeaderType::InitArray),
            15 => Ok(SectionHeaderType::FiniArray),
            16 => Ok(SectionHeaderType::PreInitArray),
            17 => Ok(SectionHeaderType::Group),
            18 => Ok(SectionHeaderType::SymTabShIndex),
            n if SHT_LOOS <= n && n <= SHT_HIOS => Ok(SectionHeaderType::OsSpecific(n)),
            n if SHT_LOPROC <= n && n <= SHT_HIPROC => Ok(SectionHeaderType::ProcessorSpecific(n)),
            n if SHT_LOUSER <= n && n <= SHT_HIUSER => Ok(SectionHeaderType::User(n)),
            _ => Err("Invalid section header type"),
        }
    }

    pub fn address(&self) -> (v: u64)
        ensures
            v == self.address,
    {
        self.address
    }

    pub fn size(&self) -> (v: u64)
        ensures
            v == self.size,
    {
        self.size
    }

    pub fn align(&self) -> (v: u64)
        ensures
            v == self.align,
    {
        self.align
    }

    pub fn offset(&self) -> (v: u64)
        ensures
            v == self.offset,
    {
        self.offset
    }

    pub fn flags(&self) -> (v: u64)
        ensures
            v == self.flags,
    {
        self.flags
    }

    pub fn name(&self) -> (v: u32)
        ensures
            v == self.name,
    {
        self.name
    }

    pub fn link(&self) -> (v: u32)
        ensures
            v == self.link,
    {
        self.link
    }

    pub fn info(&self) -> (v: u32)
        ensures
            v == self.info,
    {
        self.info
    }
}

} // verus!

verus! {

/// A byte-string result as values: the bytes, or the error message.
pub open spec fn bytes_result(r: Result<&[u8], &str>) -> Result<Seq<u8>, Seq<char>> {
    match r {
        Ok(b) => Ok(b@),
        Err(e) => Err(e@),
    }
}

/// The section-name string table: the bytes of the file from the offset of
/// the section that the header names, to the end of the file.
pub open spec fn shstr_table(input: Seq<u8>, body: HeaderBody) -> Result<Seq<u8>, Seq<char>> {
    match section_at(input, body, body.sh_str_index as int) {
        None => Err("File is shorter than section header offset"@),
        Some(h) => if input.len() < h.offset {
            Err("File is shorter than section offset"@)
        } else {
            Ok(input.subrange(h.offset as int, input.len() as int))
        },
    }
}

/// Whether [`ElfFile::get_shstr_table`] can run: the section it looks up is
/// defined and its offset is an address of this machine.
pub open spec fn shstr_table_defined(input: Seq<u8>, body: HeaderBody) -> bool {
    &&& section_header_defined(input.len() as int, body, body.sh_str_index as int)
    &&& section_at(input, body, body.sh_str_index as int) matches Some(h) ==> h.offset <= usize::MAX
}

/// The NUL-terminated name at `index` in the section-name string table.
pub open spec fn shstr(input: Seq<u8>, body: HeaderBody, index: int) -> Result<Seq<u8>, Seq<char>> {
    match shstr_table(input, body) {
        Ok(t) => Ok(crate::pod::until_null(t.skip(index))),
        Err(e) => Err(e),
    }
}

/// Whether [`ElfFile::get_shstr`] can read the name at `index`: the table can
/// be found, and if it is there, `index` lies within it and a NUL byte
/// follows.
pub open spec fn shstr_defined(input: Seq<u8>, body: HeaderBody, index: int) -> bool {
    &&& shstr_table_defined(input, body)
    &&& shstr_table(input, body) matches Ok(t) ==> index <= t.len() && crate::pod::has_null(t.skip(index))
}

/// The name of a section, as [`SectionHeader::get_name`] finds it.
pub open spec fn section_name(sh: SectionHeader, input: Seq<u8>, body: HeaderBody) -> Result<
    Seq<u8>,
    Seq<char>,
> {
    match section_type(sh.type_) {
        None => Err("Invalid section header type"@),
        Some(SectionHeaderType::Null) => Err("Attempted to get name of null section"@),
        Some(_) => shstr(input, body, sh.name as int),
    }
}

/// Whether [`SectionHeader::get_name`] can run on a section.
pub open spec fn section_name_defined(sh: SectionHeader, input: Seq<u8>, body: HeaderBody) -> bool {
    match section_type(sh.type_) {
        None => true,
        Some(SectionHeaderType::Null) => true,
        Some(_) => shstr_defined(input, body, sh.name as int),
    }
}

/// Whether the sections before `i` can all be read.
pub open spec fn sections_readable_before(input: Seq<u8>, body: HeaderBody, i: int) -> bool {
    forall|j: int| 0 <= j < i ==> section_at(input, body, j) is Some
}

/// Whether iterating over the sections (which stops at the first section
/// that lies beyond the end of the file) and reading their names never fails
/// an assertion.
pub open spec fn section_names_defined(input: Seq<u8>, body: HeaderBody) -> bool {
    forall|i: int|
        0 <= i < body.sh_count && sections_readable_before(input, body, i) ==> {
            &&& section_header_defined(input.len() as int, body, i)
            &&& section_at(input, body, i) matches Some(sh) ==> section_name_defined(sh, input, body)
        }
}

/// The first section, from section `i` on, whose name is `name` (sections
/// whose name cannot be read are skipped; the search ends at the first
/// section that lies beyond the end of the file).
pub open spec fn find_named_from(input: Seq<u8>, body: HeaderBody, name: Seq<u8>, i: int) -> Option<
    SectionHeader,
>
    decreases body.sh_count - i,
{
    if 0 <= i < body.sh_count {
        match section_at(input, body, i) {
            None => None,
            Some(sh) => if section_name(sh, input, body) == Ok::<Seq<u8>, Seq<char>>(name) {
                Some(sh)
            } else {
                find_named_from(input, body, name, i + 1)
            },
        }
    } else {
        None
    }
}

/// The bytes of a section's contents.
pub open spec fn section_bytes(input: Seq<u8>, sh: SectionHeader) -> Seq<u8> {
    input.subrange(sh.offset as int, sh.offset + sh.size)
}

/// Whether [`SectionHeader::raw_data`] can run: the type is valid and not
/// `Null`, and the contents lie within the file.
pub open spec fn raw_data_defined(input: Seq<u8>, sh: SectionHeader) -> bool {
    &&& section_type(sh.type_) is Some
    &&& section_type(sh.type_) != Some(SectionHeaderType::Null)
    &&& sh.offset + sh.size <= input.len()
}

pub struct SectionIter<'input, 'file> {
    pub file: &'file ElfFile<'input>,
    pub next_index: u16,
}

impl<'input, 'file> SectionIter<'input, 'file> {
    /// The next section header, or `None` after the last one or at the first
    /// one that lies beyond the end of the file.
    pub fn next(&mut self) -> (r: Option<SectionHeader>)
        requires
            old(self).next_index < old(self).file.header.body.sh_count ==> section_header_defined(
                old(self).file.input@.len() as int,
                old(self).file.header.body,
                old(self).next_index as int,
            ),
        ensures
            final(self).file == old(self).file,
            old(self).next_index >= old(self).file.header.body.sh_count ==> r is None
                && final(self).next_index == old(self).next_index,
            old(self).next_index < old(self).file.header.body.sh_count ==> r == section_at(
                old(self).file.input@,
                old(self).file.header.body,
                old(self).next_index as int,
            ) && final(self).next_index == old(self).next_index + 1,
    {
        if self.next_index >= self.file.header.body.sh_count {
            return None;
        }
        let result = self.file.get_section_header(self.next_index);
        self.next_index += 1;
        result.ok()
    }
}

impl<'a> ElfFile<'a> {
    /// An iterator over the section headers, from the first.
    pub fn section_iter(&self) -> (it: SectionIter<'a, '_>)
        ensures
            it.file == self,
            it.next_index == 0,
    {
        SectionIter { file: self, next_index: 0 }
    }

    pub fn get_section_header(&self, index: u16) -> (r: Result<SectionHeader, &'static str>)
        requires
            section_header_defined(self.input@.len() as int, self.header.body, index as int),
        ensures
            r is Ok <==> section_at(self.input@, self.header.body, index as int) is Some,
            r matches Ok(sh) ==> Some(sh) == section_at(self.input@, self.header.body, index as int),
            r matches Err(e) ==> e@ == "File is shorter than section header offset"@,
    {
        SectionHeader::parse(self.input, self.header, index)
    }

    /// The section-name string table, from its start to the end of the file.
    pub fn get_shstr_table(&self) -> (r: Result<&'a [u8], &'static str>)
        requires
            shstr_table_defined(self.input@, self.header.body),
        ensures
            bytes_result(r) == shstr_table(self.input@, self.header.body),
    {
        let h = self.get_section_header(self.header.body.sh_str_index)?;
        let offset = h.offset as usize;
        if self.input.len() < offset {
            return Err("File is shorter than section offset");
        }
        Ok(vstd::slice::slice_subrange(self.input, offset, self.input.len()))
    }

    /// The bytes of the NUL-terminated name at `index` in the section-name
    /// string table.
    pub fn get_shstr(&self, index: u32) -> (r: Result<&'a [u8], &'static str>)
        requires
            shstr_defined(self.input@, self.header.body, index as int),
        ensures
            bytes_result(r) == shstr(self.input@, self.header.body, index as int),
    {
        let table = self.get_shstr_table()?;
        let rest = vstd::slice::slice_subrange(table, index as usize, table.len());
        assert(rest@ == table@.skip(index as int));
        Ok(crate::pod::read_until_null(rest))
    }

    fn find_section_by_name_bytes(&self, name: &[u8]) -> (r: Option<SectionHeader>)
        requires
            section_names_defined(self.input@, self.header.body),
        ensures
            r == find_named_from(self.input@, self.header.body, name@, 0),
    {
        let ghost input = self.input@;
        let ghost body = self.header.body;
        let mut iter = self.section_iter();
        loop
            invariant
                iter.file == self,
                input == self.input@,
                body == self.header.body,
                section_names_defined(input, body),
                sections_readable_before(input, body, iter.next_index as int),
                find_named_from(input, body, name@, 0) == find_named_from(
                    input,
                    body,
                    name@,
                    iter.next_index as int,
                ),
            decreases body.sh_count - iter.next_index,
        {
            let ghost i = iter.next_index as int;
            let sect = match iter.next() {
                Some(sect) => sect,
                None => {
                    return None;
                },
            };
            assert(sections_readable_before(input, body, i + 1));
            if let Ok(sect_name) = sect.get_name(self) {
                if slice_eq(sect_name, name) {
                    return Some(sect);
                }
            }
        }
    }

    /// The first section named `name`, among those before the first section
    /// that lies beyond the end of the file.
    pub fn find_section_by_name(&self, name: &str) -> (r: Option<SectionHeader>)
        requires
            section_names_defined(self.input@, self.header.body),
        ensures
            r == find_named_from(self.input@, self.header.body, name.spec_bytes(), 0),
    {
        self.find_section_by_name_bytes(name.as_bytes())
    }
}

impl SectionHeader {
    /// The name of this section in the section-name string table.
    pub fn get_name<'a>(&self, file: &ElfFile<'a>) -> (r: Result<&'a [u8], &'static str>)
        requires
            section_name_defined(*self, file.input@, file.header.body),
        ensures
            bytes_result(r) == section_name(*self, file.input@, file.header.body),
    {
        if self.get_type()? == SectionHeaderType::Null {
            return Err("Attempted to get name of null section");
        }
        file.get_shstr(self.name)
    }

    /// The contents of this section.
    pub fn raw_data<'a>(&self, file: &ElfFile<'a>) -> (r: &'a [u8])
        requires
            raw_data_defined(file.input@, *self),
        ensures
            r@ == section_bytes(file.input@, *self),
    {
        let _len = file.input.len();
        vstd::slice::slice_subrange(
            file.input,
            self.offset() as usize,
            (self.offset() + self.size()) as usize,
        )
    }
}

/// Whether two byte strings are equal.
pub(crate) fn slice_eq(a: &[u8], b: &[u8]) -> (r: bool)
    ensures
        r == (a@ == b@),
{
    if a.len() != b.len() {
        return false;
    }
    let mut i: usize = 0;
    while i < a.len()
        invariant
            a@.len() == b@.len(),
            i <= a@.len(),
            forall|j: int| 0 <= j < i ==> a@[j] == b@[j],
        decreases a@.len() - i,
    {
        if a[i] != b[i] {
            return false;
        }
        i += 1;
    }
    assert(a@ =~= b@);
    true
}

} // verus!

verus! {

/// A string result as values: the bytes of the string, or the error message.
pub open spec fn str_result(r: Result<&str, &str>) -> Result<Seq<u8>, Seq<char>> {
    match r {
        Ok(s) => Ok(s.spec_bytes()),
        Err(e) => Err(e@),
    }
}

/// The NUL-terminated string at `index` in the `.strtab` section, as
/// [`ElfFile::get_string`] finds it.
pub open spec fn strtab_string(input: Seq<u8>, body: HeaderBody, index: int) -> Result<
    Seq<u8>,
    Seq<char>,
> {
    match find_named_from(input, body, ".strtab".spec_bytes(), 0) {
        None => Err("no `.strtab` section"@),
        Some(h) => match section_type(h.type_) {
            None => Err("Invalid section header type"@),
            Some(t) => if t != SectionHeaderType::StrTab {
                Err("expected `.strtab` to be a string table"@)
            } else {
                Ok(crate::pod::until_null(section_bytes(input, h).skip(index)))
            },
        },
    }
}

/// Whether [`ElfFile::get_string`] can run: the section names can be read,
/// and if a `.strtab` string table is found, it lies within the file and at
/// `index` holds a NUL-terminated, valid UTF-8 string.
pub open spec fn strtab_string_defined(input: Seq<u8>, body: HeaderBody, index: int) -> bool {
    &&& section_names_defined(input, body)
    &&& find_named_from(input, body, ".strtab".spec_bytes(), 0) matches Some(h) ==> (section_type(
        h.type_,
    ) == Some(SectionHeaderType::StrTab) ==> {
        &&& raw_data_defined(input, h)
        &&& index <= h.size
        &&& crate::pod::has_null(section_bytes(input, h).skip(index))
        &&& vstd::utf8::valid_utf8(crate::pod::until_null(section_bytes(input, h).skip(index)))
    })
}

impl<'a> ElfFile<'a> {
    /// The NUL-terminated string at `index` in the `.strtab` section.
    pub fn get_string(&self, index: u32) -> (r: Result<&'a str, &'static str>)
        requires
            strtab_string_defined(self.input@, self.header.body, index as int),
        ensures
            str_result(r) == strtab_string(self.input@, self.header.body, index as int),
    {
        let header = match self.find_section_by_name(".strtab") {
            Some(h) => h,
            None => {
                return Err("no `.strtab` section");
            },
        };
        if header.get_type()? != SectionHeaderType::StrTab {
            return Err("expected `.strtab` to be a string table");
        }
        let data = header.raw_data(self);
        let rest = vstd::slice::slice_subrange(data, index as usize, data.len());
        assert(rest@ == data@.skip(index as int));
        Ok(crate::pod::read_str(rest))
    }
}

} // verus!

verus! {

/// A relocation without addend, decoded from the 16 bytes of an `Elf64_Rel`.
#[derive(Clone, Copy, Debug)]
pub struct Rel {
    pub offset: u64,
    pub info: u64,
}

/// A relocation with addend, decoded from the 24 bytes of an `Elf64_Rela`.
#[derive(Clone, Copy, Debug)]
pub struct Rela {
    pub offset: u64,
    pub info: u64,
    pub addend: u64,
}

impl Rela {
    pub fn get_offset(&self) -> (v: u64)
        ensures
            v == self.offset,
    {
        self.offset
    }

    pub fn get_addend(&self) -> (v: u64)
        ensures
            v == self.addend,
    {
        self.addend
    }

    /// The symbol table index: the upper 32 bits of `info`.
    pub fn get_symbol_table_index(&self) -> (v: u32)
        ensures
            v == self.info / 0x1_0000_0000,
    {
        let info = self.info;
        assert(info >> 32u64 == info / 0x1_0000_0000) by (bit_vector);
        (info >> 32) as u32
    }

    /// The relocation type: the lower 32 bits of `info`.
    pub fn get_type(&self) -> (v: u32)
        ensures
            v == self.info % 0x1_0000_0000,
    {
        let info = self.info;
        assert(info & 0xffffffffu64 == info % 0x1_0000_0000) by (bit_vector);
        (info & 0xffffffff) as u32
    }
}

#[derive(Clone, Copy, Debug, Eq, PartialEq, Structural)]
pub enum SymbolType {
    NoType,
    Object,
    Func,
    Section,
    File,
    Common,
    Tls,
    OsSpecific(u8),
    ProcessorSpecific(u8),
}

#[derive(Clone, Copy, Debug, Eq, PartialEq, Structural)]
pub enum SymbolBinding {
    Local,
    Global,
    Weak,
    OsSpecific(u8),
    ProcessorSpecific(u8),
}

#[derive(Clone, Copy, Debug, Default, Eq, PartialEq, Structural)]
pub enum SymbolVisibility {
    #[default]
    Default,
    Internal,
    Hidden,
    Protected,
}

/// A symbol, decoded from the 24 bytes of an `Elf64_Sym`.
#[derive(Clone, Copy, Debug)]
pub struct SymbolTableEntry {
    pub name: u32,
    pub info: u8,
    pub other: u8,
    pub shndx: u16,
    pub value: u64,
    pub size: u64,
}

/// The symbol type in the low four bits of `st_info`, if it is a valid one.
pub open spec fn symbol_type(info: u8) -> Option<SymbolType> {
    let t = info % 16;
    if t == 0 {
        Some(SymbolType::NoType)
    } else if t == 1 {
        Some(SymbolType::Object)
    } else if t == 2 {
        Some(SymbolType::Func)
    } else if t == 3 {
        Some(SymbolType::Section)
    } else if t == 4 {
        Some(SymbolType::File)
    } else if t == 5 {
        Some(SymbolType::Common)
    } else if t == 6 {
        Some(SymbolType::Tls)
    } else if 10 <= t <= 12 {
        Some(SymbolType::OsSpecific(t))
    } else if 13 <= t {
        Some(SymbolType::ProcessorSpecific(t))
    } else {
        None
    }
}

/// The symbol binding in the high four bits of `st_info`, if it is a valid
/// one.
pub open spec fn symbol_binding(info: u8) -> Option<SymbolBinding> {
    let b = info / 16;
    if b == 0 {
        Some(SymbolBinding::Local)
    } else if b == 1 {
        Some(SymbolBinding::Global)
    } else if b == 2 {
        Some(SymbolBinding::Weak)
    } else if 10 <= b <= 12 {
        Some(SymbolBinding::OsSpecific(b))
    } else if 13 <= b {
        Some(SymbolBinding::ProcessorSpecific(b))
    } else {
        None
    }
}

/// The `st_info` codes of the ELF specification: the binding is the high
/// four bits (STB_LOCAL 0, STB_GLOBAL 1, STB_WEAK 2) and the type the low
/// four bits (STT_NOTYPE 0, STT_OBJECT 1, STT_FUNC 2, STT_SECTION 3,
/// STT_FILE 4, STT_COMMON 5, STT_TLS 6).
pub proof fn lemma_symbol_info_codes(info: u8)
    ensures
        symbol_binding(info) == Some(SymbolBinding::Local) <==> info / 16 == 0,
        symbol_binding(info) == Some(SymbolBinding::Global) <==> info / 16 == 1,
        symbol_binding(info) == Some(SymbolBinding::Weak) <==> info / 16 == 2,
        symbol_type(info) == Some(SymbolType::NoType) <==> info % 16 == 0,
        symbol_type(info) == Some(SymbolType::Object) <==> info % 16 == 1,
        symbol_type(info) == Some(SymbolType::Func) <==> info % 16 == 2,
        symbol_type(info) == Some(SymbolType::Section) <==> info % 16 == 3,
        symbol_type(info) == Some(SymbolType::File) <==> info % 16 == 4,
        symbol_type(info) == Some(SymbolType::Common) <==> info % 16 == 5,
        symbol_type(info) == Some(SymbolType::Tls) <==> info % 16 == 6,
{
}

/// The symbol visibility in the low two bits of `st_other`.
pub open spec fn symbol_visibility(other: u8) -> SymbolVisibility {
    let v = other % 4;
    if v == 0 {
        SymbolVisibility::Default
    } else if v == 1 {
        SymbolVisibility::Internal
    } else if v == 2 {
        SymbolVisibility::Hidden
    } else {
        SymbolVisibility::Protected
    }
}

/// The `st_other` visibility codes of the ELF specification: STV_DEFAULT 0,
/// STV_INTERNAL 1, STV_HIDDEN 2, STV_PROTECTED 3, in the low two bits.
pub proof fn lemma_symbol_visibility_codes(other: u8)
    ensures
        symbol_visibility(other) == SymbolVisibility::Default <==> other % 4 == 0,
        symbol_visibility(other) == SymbolVisibility::Internal <==> other % 4 == 1,
        symbol_visibility(other) == SymbolVisibility::Hidden <==> other % 4 == 2,
        symbol_visibility(other) == SymbolVisibility::Protected <==> other % 4 == 3,
{
}

impl SymbolTableEntry {
    /// Get the type (function, TLS, file, etc.) of this symbol.
    pub fn get_type(&self) -> (r: Result<SymbolType, &'static str>)
        ensures
            r is Ok <==> symbol_type(self.info) is Some,
            r matches Ok(t) ==> symbol_type(self.info) == Some(t),
            r matches Err(e) ==> e@ == "invalid value for symbol type"@,
    {
        let info = self.info();
        assert(info & 0xfu8 == info % 16) by (bit_vector);
        match info & 0xf {
            0 => Ok(SymbolType::NoType),
            1 => Ok(SymbolType::Object),
            2 => Ok(SymbolType::Func),
            3 => Ok(SymbolType::Section),
            4 => Ok(SymbolType::File),
            5 => Ok(SymbolType::Common),
            6 => Ok(SymbolType::Tls),
            b @ 10..=12 => Ok(SymbolType::OsSpecific(b)),
            b @ 13..=15 => Ok(SymbolType::ProcessorSpecific(b)),
            _ => Err("invalid value for symbol type"),
        }
    }

    /// Get the binding (local, global, weak, etc.) of this symbol.
    pub fn get_binding(&self) -> (r: Result<SymbolBinding, &'static str>)
        ensures
            r is Ok <==> symbol_binding(self.info) is Some,
            r matches Ok(b) ==> symbol_binding(self.info) == Some(b),
            r matches Err(e) ==> e@ == "invalid value for symbol binding"@,
    {
        let info = self.info();
        assert(info >> 4u8 == info / 16) by (bit_vector);
        match info >> 4 {
            0 => Ok(SymbolBinding::Local),
            1 => Ok(SymbolBinding::Global),
            2 => Ok(SymbolBinding::Weak),
            b if 10 <= b && b <= 12 => Ok(SymbolBinding::OsSpecific(b)),
            b if 13 <= b && b <= 15 => Ok(SymbolBinding::ProcessorSpecific(b)),
            _ => Err("invalid value for symbol binding"),
        }
    }

    /// Get the visibility (default, internal, hidden, or protected) of this
    /// symbol. There are no invalid values for symbol visibility.
    pub fn get_visibility(&self) -> (v: SymbolVisibility)
        ensures
            v == symbol_visibility(self.other),
    {
        let other = self.other;
        assert(other & 3u8 == other % 4) by (bit_vector);
        match other & 0x3 {
            0 => SymbolVisibility::Default,
            1 => SymbolVisibility::Internal,
            2 => SymbolVisibility::Hidden,
            _ => SymbolVisibility::Protected,
        }
    }

    /// The name of this symbol in the `.strtab` section.
    pub fn get_name<'a>(&self, file: &ElfFile<'a>) -> (r: Result<&'a str, &'static str>)
        requires
            strtab_string_defined(file.input@, file.header.body, self.name as int),
        ensures
            str_result(r) == strtab_string(file.input@, file.header.body, self.name as int),
    {
        file.get_string(self.name)
    }

    pub fn name(&self) -> (v: u32)
        ensures
            v == self.name,
    {
        self.name
    }

    pub fn size(&self) -> (v: u64)
        ensures
            v == self.size,
    {
        self.size
    }

    pub fn value(&self) -> (v: u64)
        ensures
            v == self.value,
    {
        self.value
    }

    pub fn info(&self) -> (v: u8)
        ensures
            v == self.info,
    {
        self.info
    }

    pub fn shndx(&self) -> (v: u16)
        ensures
            v == self.shndx,
    {
        self.shndx
    }
}

} // verus!

verus! {

/// The symbol whose bytes start at `p`.
pub open spec fn symbol_at(b: Seq<u8>, p: int) -> SymbolTableEntry {
    SymbolTableEntry {
        name: le_u32(b, p) as u32,
        info: b[p + 4],
        other: b[p + 5],
        shndx: le_u16(b, p + 6) as u16,
        value: le_u64(b, p + 8) as u64,
        size: le_u64(b, p + 16) as u64,
    }
}

/// The relocation without addend whose bytes start at `p`.
pub open spec fn rel_at(b: Seq<u8>, p: int) -> Rel {
    Rel { offset: le_u64(b, p) as u64, info: le_u64(b, p + 8) as u64 }
}

/// The relocation with addend whose bytes start at `p`.
pub open spec fn rela_at(b: Seq<u8>, p: int) -> Rela {
    Rela {
        offset: le_u64(b, p) as u64,
        info: le_u64(b, p + 8) as u64,
        addend: le_u64(b, p + 16) as u64,
    }
}

/// The bytes read as an array of little-endian `u32`s.
pub open spec fn u32_array(b: Seq<u8>) -> Seq<u32> {
    Seq::new(b.len() / 4, |i: int| le_u32(b, 4 * i) as u32)
}

/// The bytes read as an array of little-endian `u64`s.
pub open spec fn u64_array(b: Seq<u8>) -> Seq<u64> {
    Seq::new(b.len() / 8, |i: int| le_u64(b, 8 * i) as u64)
}

/// The bytes read as an array of symbols.
pub open spec fn symbol_array(b: Seq<u8>) -> Seq<SymbolTableEntry> {
    Seq::new(b.len() / 24, |i: int| symbol_at(b, 24 * i))
}

/// The bytes read as an array of relocations without addend.
pub open spec fn rel_array(b: Seq<u8>) -> Seq<Rel> {
    Seq::new(b.len() / 16, |i: int| rel_at(b, 16 * i))
}

/// The bytes read as an array of relocations with addend.
pub open spec fn rela_array(b: Seq<u8>) -> Seq<Rela> {
    Seq::new(b.len() / 24, |i: int| rela_at(b, 24 * i))
}

fn read_u32_array(data: &[u8]) -> (v: Vec<u32>)
    ensures
        v@ == u32_array(data@),
{
    let n = data.len() / 4;
    let mut v: Vec<u32> = Vec::new();
    let mut i: usize = 0;
    while i < n
        invariant
            n == data@.len() / 4,
            data@.len() <= usize::MAX,
            i <= n,
            v@.len() == i,
            forall|j: int| 0 <= j < i ==> v@[j] == le_u32(data@, 4 * j) as u32,
        decreases n - i,
    {
        v.push(read_u32_le(data, 4 * i));
        i += 1;
    }
    assert(v@ =~= u32_array(data@));
    v
}

fn read_u64_array(data: &[u8]) -> (v: Vec<u64>)
    ensures
        v@ == u64_array(data@),
{
    let n = data.len() / 8;
    let mut v: Vec<u64> = Vec::new();
    let mut i: usize = 0;
    while i < n
        invariant
            n == data@.len() / 8,
            data@.len() <= usize::MAX,
            i <= n,
            v@.len() == i,
            forall|j: int| 0 <= j < i ==> v@[j] == le_u64(data@, 8 * j) as u64,
        decreases n - i,
    {
        v.push(read_u64_le(data, 8 * i));
        i += 1;
    }
    assert(v@ =~= u64_array(data@));
    v
}

fn read_symbol_array(data: &[u8]) -> (v: Vec<SymbolTableEntry>)
    ensures
        v@ == symbol_array(data@),
{
    let n = data.len() / 24;
    let mut v: Vec<SymbolTableEntry> = Vec::new();
    let mut i: usize = 0;
    while i < n
        invariant
            n == data@.len() / 24,
            data@.len() <= usize::MAX,
            i <= n,
            v@.len() == i,
            forall|j: int| 0 <= j < i ==> v@[j] == symbol_at(data@, 24 * j),
        decreases n - i,
    {
        let p = 24 * i;
        v.push(
            SymbolTableEntry {
                name: read_u32_le(data, p),
                info: data[p + 4],
                other: data[p + 5],
                shndx: read_u16_le(data, p + 6),
                value: read_u64_le(data, p + 8),
                size: read_u64_le(data, p + 16),
            },
        );
        i += 1;
    }
    assert(v@ =~= symbol_array(data@));
    v
}

fn read_rel_array(data: &[u8]) -> (v: Vec<Rel>)
    ensures
        v@ == rel_array(data@),
{
    let n = data.len() / 16;
    let mut v: Vec<Rel> = Vec::new();
    let mut i: usize = 0;
    while i < n
        invariant
            n == data@.len() / 16,
            data@.len() <= usize::MAX,
            i <= n,
            v@.len() == i,
            forall|j: int| 0 <= j < i ==> v@[j] == rel_at(data@, 16 * j),
        decreases n - i,
    {
        let p = 16 * i;
        v.push(Rel { offset: read_u64_le(data, p), info: read_u64_le(data, p + 8) });
        i += 1;
    }
    assert(v@ =~= rel_array(data@));
    v
}

fn read_rela_array(data: &[u8]) -> (v: Vec<Rela>)
    ensures
        v@ == rela_array(data@),
{
    let n = data.len() / 24;
    let mut v: Vec<Rela> = Vec::new();
    let mut i: usize = 0;
    while i < n
        invariant
            n == data@.len() / 24,
            data@.len() <= usize::MAX,
            i <= n,
            v@.len() == i,
            forall|j: int| 0 <= j < i ==> v@[j] == rela_at(data@, 24 * j),
        decreases n - i,
    {
        let p = 24 * i;
        v.push(
            Rela {
                offset: read_u64_le(data, p),
                info: read_u64_le(data, p + 8),
                addend: read_u64_le(data, p + 16),
            },
        );
        i += 1;
    }
    assert(v@ =~= rela_array(data@));
    v
}

} // verus!

verus! {

/// The contents of a section, decoded according to its type.
#[derive(Debug)]
pub enum SectionData<'a> {
    Empty,
    Undefined(&'a [u8]),
    Group { flags: u32, indices: Vec<u32> },
    StrArray(&'a [u8]),
    FnArray(Vec<u64>),
    SymbolTable(Vec<SymbolTableEntry>),
    DynSymbolTable(Vec<SymbolTableEntry>),
    SymTabShIndex(Vec<u32>),
    Rela(Vec<Rela>),
    Rel(Vec<Rel>),
}

/// Whether [`SectionHeader::get_data`] can decode a section: the types it
/// handles, with contents that lie within the file and whose length is a
/// whole number of entries (a group holds at least its flags word).
pub open spec fn section_data_defined(input: Seq<u8>, sh: SectionHeader) -> bool {
    match section_type(sh.type_) {
        None => true,
        Some(t) => match t {
            SectionHeaderType::Null | SectionHeaderType::NoBits => true,
            SectionHeaderType::Dynamic | SectionHeaderType::Note | SectionHeaderType::Hash => false,
            SectionHeaderType::SymTab | SectionHeaderType::DynSym | SectionHeaderType::Rela => raw_data_defined(
                input,
                sh,
            ) && sh.size % 24 == 0,
            SectionHeaderType::InitArray
            | SectionHeaderType::FiniArray
            | SectionHeaderType::PreInitArray => raw_data_defined(input, sh) && sh.size % 8 == 0,
            SectionHeaderType::Rel => raw_data_defined(input, sh) && sh.size % 16 == 0,
            SectionHeaderType::SymTabShIndex => raw_data_defined(input, sh) && sh.size % 4 == 0,
            SectionHeaderType::Group => raw_data_defined(input, sh) && sh.size >= 4 && sh.size % 4
                == 0,
            _ => raw_data_defined(input, sh),
        },
    }
}

/// Whether `d` is the decoding of the contents `b` of a section of type `t`.
pub open spec fn section_data_decodes(d: SectionData, t: SectionHeaderType, b: Seq<u8>) -> bool {
    match t {
        SectionHeaderType::Null | SectionHeaderType::NoBits => d is Empty,
        SectionHeaderType::ProgBits
        | SectionHeaderType::ShLib
        | SectionHeaderType::OsSpecific(_)
        | SectionHeaderType::ProcessorSpecific(_)
        | SectionHeaderType::User(_) => d matches SectionData::Undefined(x) && x@ == b,
        SectionHeaderType::SymTab => d matches SectionData::SymbolTable(v) && v@ == symbol_array(b),
        SectionHeaderType::DynSym => d matches SectionData::DynSymbolTable(v) && v@ == symbol_array(
            b,
        ),
        SectionHeaderType::StrTab => d matches SectionData::StrArray(x) && x@ == b,
        SectionHeaderType::InitArray
        | SectionHeaderType::FiniArray
        | SectionHeaderType::PreInitArray => d matches SectionData::FnArray(v) && v@ == u64_array(b),
        SectionHeaderType::Rela => d matches SectionData::Rela(v) && v@ == rela_array(b),
        SectionHeaderType::Rel => d matches SectionData::Rel(v) && v@ == rel_array(b),
        SectionHeaderType::Group => d matches SectionData::Group { flags, indices } && flags == le_u32(
            b,
            0,
        ) && indices@ == u32_array(b.skip(4)),
        SectionHeaderType::SymTabShIndex => d matches SectionData::SymTabShIndex(v) && v@
            == u32_array(b),
        _ => false,
    }
}

impl SectionHeader {
    /// The contents of this section, decoded according to its type.
    pub fn get_data<'a>(&self, file: &ElfFile<'a>) -> (r: Result<SectionData<'a>, &'static str>)
        requires
            section_data_defined(file.input@, *self),
        ensures
            r is Ok <==> section_type(self.type_) is Some,
            r matches Err(e) ==> e@ == "Invalid section header type"@,
            r matches Ok(d) ==> section_data_decodes(
                d,
                section_type(self.type_)->0,
                section_bytes(file.input@, *self),
            ),
    {
        let typ = self.get_type()?;
        Ok(
            match typ {
                SectionHeaderType::Null | SectionHeaderType::NoBits => SectionData::Empty,
                SectionHeaderType::ProgBits
                | SectionHeaderType::ShLib
                | SectionHeaderType::OsSpecific(_)
                | SectionHeaderType::ProcessorSpecific(_)
                | SectionHeaderType::User(_) => SectionData::Undefined(self.raw_data(file)),
                SectionHeaderType::SymTab => {
                    let data = self.raw_data(file);
                    SectionData::SymbolTable(read_symbol_array(data))
                },
                SectionHeaderType::DynSym => {
                    let data = self.raw_data(file);
                    SectionData::DynSymbolTable(read_symbol_array(data))
                },
                SectionHeaderType::StrTab => SectionData::StrArray(self.raw_data(file)),
                SectionHeaderType::InitArray
                | SectionHeaderType::FiniArray
                | SectionHeaderType::PreInitArray => {
                    let data = self.raw_data(file);
                    SectionData::FnArray(read_u64_array(data))
                },
                SectionHeaderType::Rela => {
                    let data = self.raw_data(file);
                    SectionData::Rela(read_rela_array(data))
                },
                SectionHeaderType::Rel => {
                    let data = self.raw_data(file);
                    SectionData::Rel(read_rel_array(data))
                },
                SectionHeaderType::Group => {
                    let data = self.raw_data(file);
                    let flags = read_u32_le(data, 0);
                    let rest = vstd::slice::slice_subrange(data, 4, data.len());
                    assert(rest@ == data@.skip(4));
                    SectionData::Group { flags, indices: read_u32_array(rest) }
                },
                SectionHeaderType::SymTabShIndex => {
                    SectionData::SymTabShIndex(read_u32_array(self.raw_data(file)))
                },
                // Dynamic sections, notes and hash tables are not decoded:
                // excluded by the precondition.
                SectionHeaderType::Dynamic | SectionHeaderType::Note | SectionHeaderType::Hash => {
                    proof {
                        assert(false);
                    }
                    SectionData::Empty
                },
            },
        )
    }
}

} // verus!

verus! {

/// Whether every section that iteration reaches (all sections before the
/// first one that lies beyond the end of the file) can be looked at.
pub open spec fn sections_defined(input: Seq<u8>, body: HeaderBody) -> bool {
    forall|i: int|
        0 <= i < body.sh_count && sections_readable_before(input, body, i)
            ==> section_header_defined(input.len() as int, body, i)
}

/// The first section of type `SymTab`, from section `i` on (the search ends at
/// the first section that lies beyond the end of the file).
pub open spec fn find_symtab_from(input: Seq<u8>, body: HeaderBody, i: int) -> Option<SectionHeader>
    decreases body.sh_count - i,
{
    if 0 <= i < body.sh_count {
        match section_at(input, body, i) {
            None => None,
            Some(sh) => if section_type(sh.type_) == Some(SectionHeaderType::SymTab) {
                Some(sh)
            } else {
                find_symtab_from(input, body, i + 1)
            },
        }
    } else {
        None
    }
}

impl<'a> ElfFile<'a> {
    /// The symbols of the first symbol table section.
    pub fn get_symbol_table(&self) -> (r: Result<Vec<SymbolTableEntry>, &'static str>)
        requires
            sections_defined(self.input@, self.header.body),
            find_symtab_from(self.input@, self.header.body, 0) matches Some(h)
                ==> section_data_defined(self.input@, h),
        ensures
            r is Ok <==> find_symtab_from(self.input@, self.header.body, 0) is Some,
            r matches Ok(v) ==> v@ == symbol_array(
                section_bytes(self.input@, find_symtab_from(self.input@, self.header.body, 0)->0),
            ),
            r matches Err(e) ==> e@ == "no symbol table found, file may have been stripped"@,
    {
        let ghost input = self.input@;
        let ghost body = self.header.body;
        let mut iter = self.section_iter();
        let mut found: Option<SectionHeader> = None;
        loop
            invariant_except_break
                found is None,
                sections_readable_before(input, body, iter.next_index as int),
                find_symtab_from(input, body, 0) == find_symtab_from(
                    input,
                    body,
                    iter.next_index as int,
                ),
            invariant
                iter.file == self,
                input == self.input@,
                body == self.header.body,
                sections_defined(input, body),
            ensures
                found == find_symtab_from(input, body, 0),
                found matches Some(s) ==> section_type(s.type_) == Some(SectionHeaderType::SymTab),
            decreases body.sh_count - iter.next_index,
        {
            let ghost i = iter.next_index as int;
            match iter.next() {
                Some(sec) => {
                    assert(sections_readable_before(input, body, i + 1));
                    if let Ok(SectionHeaderType::SymTab) = sec.get_type() {
                        found = Some(sec);
                        break ;
                    }
                },
                None => {
                    break ;
                },
            }
        }
        let symtab_data = match found {
            Some(s) => s.get_data(self),
            None => Err("no `symtab` section"),
        };
        match symtab_data {
            Ok(SectionData::SymbolTable(symtab)) => Ok(symtab),
            _ => Err("no symbol table found, file may have been stripped"),
        }
    }
}

/// The section that a symbol belongs to, as
/// [`SymbolTableEntry::get_section_header`] finds it. An index of
/// `SHN_XINDEX` is looked up in the `.symtab_shndx` section at `self_index`.
pub open spec fn symbol_section(sym: SymbolTableEntry, input: Seq<u8>, body: HeaderBody, self_index: int) -> Result<
    SectionHeader,
    Seq<char>,
> {
    if sym.shndx == SHN_XINDEX {
        match find_named_from(input, body, ".symtab_shndx".spec_bytes(), 0) {
            None => Err("no `.symtab_shndx` section"@),
            Some(h) => match section_type(h.type_) {
                None => Err("Invalid section header type"@),
                Some(_) => {
                    let index = u32_array(section_bytes(input, h))[self_index] as u16;
                    match section_at(input, body, index as int) {
                        None => Err("File is shorter than section header offset"@),
                        Some(s) => Ok(s),
                    }
                },
            },
        }
    } else if sym.shndx == SHN_UNDEF || sym.shndx == SHN_ABS || sym.shndx == SHN_COMMON {
        Err("reserved section header index"@)
    } else {
        match section_at(input, body, sym.shndx as int) {
            None => Err("File is shorter than section header offset"@),
            Some(s) => Ok(s),
        }
    }
}

/// Whether [`SymbolTableEntry::get_section_header`] can run without failing
/// an assertion: an extended index must come from a `.symtab_shndx` section
/// of the right type that holds an entry at `self_index`, naming a section
/// other than `SHN_UNDEF`; the section index must be one that can be looked
/// up.
pub open spec fn symbol_section_defined(sym: SymbolTableEntry, input: Seq<u8>, body: HeaderBody, self_index: int) -> bool {
    if sym.shndx == SHN_XINDEX {
        &&& section_names_defined(input, body)
        &&& find_named_from(input, body, ".symtab_shndx".spec_bytes(), 0) matches Some(h)
            ==> (section_type(h.type_) is Some ==> {
            let data = u32_array(section_bytes(input, h));
            &&& section_type(h.type_) == Some(SectionHeaderType::SymTabShIndex)
            &&& section_data_defined(input, h)
            &&& 0 <= self_index < data.len()
            &&& data[self_index] as u16 != SHN_UNDEF
            &&& section_header_defined(input.len() as int, body, (data[self_index] as u16) as int)
        })
    } else if sym.shndx == SHN_UNDEF || sym.shndx == SHN_ABS || sym.shndx == SHN_COMMON {
        true
    } else {
        section_header_defined(input.len() as int, body, sym.shndx as int)
    }
}

/// A section result as values.
pub open spec fn section_result(r: Result<SectionHeader, &str>) -> Result<SectionHeader, Seq<char>> {
    match r {
        Ok(s) => Ok(s),
        Err(e) => Err(e@),
    }
}

impl SymbolTableEntry {
    /// The header of the section that this symbol belongs to; `self_index` is
    /// the index of this symbol in its table.
    pub fn get_section_header<'a>(&self, file: &ElfFile<'a>, self_index: usize) -> (r: Result<
        SectionHeader,
        &'static str,
    >)
        requires
            symbol_section_defined(*self, file.input@, file.header.body, self_index as int),
        ensures
            section_result(r) == symbol_section(
                *self,
                file.input@,
                file.header.body,
                self_index as int,
            ),
    {
        if self.shndx == SHN_XINDEX {
            let header = file.find_section_by_name(".symtab_shndx");
            if let Some(header) = header {
                let t = header.get_type()?;
                if let SectionData::SymTabShIndex(data) = header.get_data(file)? {
                    let index = data[self_index] as u16;
                    file.get_section_header(index)
                } else {
                    // The type was checked above: excluded by the precondition.
                    proof {
                        assert(false);
                    }
                    Err("expected SymTabShIndex")
                }
            } else {
                Err("no `.symtab_shndx` section")
            }
        } else if self.shndx == SHN_UNDEF || self.shndx == SHN_ABS || self.shndx == SHN_COMMON {
            Err("reserved section header index")
        } else {
            file.get_section_header(self.shndx)
        }
    }
}

} // verus!

verus! {

/// A section found by name has that name, is one of the file's sections, and
/// no section before it (from the first one searched) has that name.
pub proof fn lemma_find_named(input: Seq<u8>, body: HeaderBody, name: Seq<u8>, i: int)
    requires
        find_named_from(input, body, name, i) is Some,
    ensures
        ({
            let sh = find_named_from(input, body, name, i)->0;
            &&& section_name(sh, input, body) == Ok::<Seq<u8>, Seq<char>>(name)
            &&& exists|k: int|
                i <= k < body.sh_count && section_at(input, body, k) == Some(sh) && forall|j: int|
                    i <= j < k ==> #[trigger] section_at(input, body, j) is Some && section_name(
                        section_at(input, body, j)->0,
                        input,
                        body,
                    ) != Ok::<Seq<u8>, Seq<char>>(name)
        }),
    decreases body.sh_count - i,
{
    let sh = find_named_from(input, body, name, i)->0;
    let here = section_at(input, body, i)->0;
    if section_name(here, input, body) == Ok::<Seq<u8>, Seq<char>>(name) {
        assert(section_at(input, body, i) == Some(sh));
    } else {
        lemma_find_named(input, body, name, i + 1);
        let k = choose|k: int|
            i + 1 <= k < body.sh_count && section_at(input, body, k) == Some(sh) && forall|j: int|
                i + 1 <= j < k ==> #[trigger] section_at(input, body, j) is Some && section_name(
                    section_at(input, body, j)->0,
                    input,
                    body,
                ) != Ok::<Seq<u8>, Seq<char>>(name);
        assert forall|j: int| i <= j < k implies #[trigger] section_at(input, body, j) is Some
            && section_name(section_at(input, body, j)->0, input, body) != Ok::<Seq<u8>, Seq<char>>(
            name,
        ) by {
            if j == i {
            } else {
            }
        }
    }
}

/// The section headers that [`ElfFile::section_iter`] yields from section
/// `i` on: each one in order, up to the last or to the first that lies
/// beyond the end of the file.
pub open spec fn sections_from(input: Seq<u8>, body: HeaderBody, i: int) -> Seq<SectionHeader>
    decreases body.sh_count - i,
{
    if 0 <= i < body.sh_count {
        match section_at(input, body, i) {
            None => Seq::empty(),
            Some(sh) => seq![sh] + sections_from(input, body, i + 1),
        }
    } else {
        Seq::empty()
    }
}

/// The search by name from section `i` finds the first section the
/// iteration yields from there with that name, and finds nothing exactly
/// when no section it yields has that name.
proof fn lemma_find_named_first(input: Seq<u8>, body: HeaderBody, name: Seq<u8>, i: int)
    ensures
        ({
            let secs = sections_from(input, body, i);
            &&& find_named_from(input, body, name, i) matches Some(s) ==> exists|k: int|
                0 <= k < secs.len() && secs[k] == s && section_name(s, input, body) == Ok::<Seq<u8>, Seq<char>>(name)
                    && forall|j: int|
                    0 <= j < k ==> section_name(#[trigger] secs[j], input, body) != Ok::<Seq<u8>, Seq<char>>(name)
            &&& find_named_from(input, body, name, i) is None <==> forall|k: int|
                0 <= k < secs.len() ==> section_name(#[trigger] secs[k], input, body) != Ok::<Seq<u8>, Seq<char>>(
                    name,
                )
        }),
    decreases body.sh_count - i,
{
    if 0 <= i < body.sh_count {
        if let Some(sh) = section_at(input, body, i) {
            lemma_find_named_first(input, body, name, i + 1);
            let rest = sections_from(input, body, i + 1);
            let secs = sections_from(input, body, i);
            assert(secs == seq![sh] + rest);
            assert(secs[0] == sh);
            assert forall|k: int| 0 < k < secs.len() implies secs[k] == rest[k - 1] by {}
            if section_name(sh, input, body) != Ok::<Seq<u8>, Seq<char>>(name) {
                if let Some(s) = find_named_from(input, body, name, i + 1) {
                    let k = choose|k: int|
                        0 <= k < rest.len() && rest[k] == s && section_name(s, input, body) == Ok::<
                            Seq<u8>,
                            Seq<char>,
                        >(name) && forall|j: int|
                            0 <= j < k ==> section_name(#[trigger] rest[j], input, body) != Ok::<
                                Seq<u8>,
                                Seq<char>,
                            >(name);
                    assert(secs[k + 1] == s);
                    assert forall|j: int| 0 <= j < k + 1 implies section_name(#[trigger] secs[j], input, body)
                        != Ok::<Seq<u8>, Seq<char>>(name) by {
                        if j > 0 {
                            assert(secs[j] == rest[j - 1]);
                        }
                    }
                } else {
                    assert forall|k: int| 0 <= k < secs.len() implies section_name(#[trigger] secs[k], input, body)
                        != Ok::<Seq<u8>, Seq<char>>(name) by {
                        if k > 0 {
                            assert(secs[k] == rest[k - 1]);
                        }
                    }
                }
            }
        }
    }
}

/// First match: [`ElfFile::find_section_by_name`] (see [`find_named_from`]
/// from section 0) gives the first section that
/// [`ElfFile::section_iter`] yields with that name, and `None` exactly when
/// no section it yields has that name.
pub proof fn lemma_find_section_first_match(input: Seq<u8>, body: HeaderBody, name: Seq<u8>)
    ensures
        ({
            let secs = sections_from(input, body, 0);
            &&& find_named_from(input, body, name, 0) matches Some(s) ==> exists|k: int|
                0 <= k < secs.len() && secs[k] == s && section_name(s, input, body) == Ok::<Seq<u8>, Seq<char>>(name)
                    && forall|j: int|
                    0 <= j < k ==> section_name(#[trigger] secs[j], input, body) != Ok::<Seq<u8>, Seq<char>>(name)
            &&& find_named_from(input, body, name, 0) is None <==> forall|k: int|
                0 <= k < secs.len() ==> section_name(#[trigger] secs[k], input, body) != Ok::<Seq<u8>, Seq<char>>(
                    name,
                )
        }),
{
    lemma_find_named_first(input, body, name, 0);
}

} // verus!
