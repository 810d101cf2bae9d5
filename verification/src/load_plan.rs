//! # Placing the sections of an object
//!
//! Where the loader puts each allocated section of a relocatable object:
//! which mapping, at which offset, under which name, and whether its bytes
//! are copied from the file or zeroed. The mappings themselves, the copies
//! and the registry of loaded sections are the caller's.
use vstd::prelude::*;
use crate::elf::{
    lemma_section_flag_bits, lemma_section_type_codes, rela_array, section_at, section_bytes,
    section_data_defined, section_header_defined, section_name, section_name_defined, section_type,
    symbol_binding, symbol_type, ElfFile, HeaderBody, Rela, SectionData, SectionHeader,
    SectionHeaderType, SymbolBinding, SymbolTableEntry, SymbolType, SHF_ALLOC, SHF_EXECINSTR,
    SHF_TLS, SHF_WRITE,
};
use crate::loader::{round_up, SectionKind};
use crate::pod::str_from_utf8;
use vstd::utf8::{decode_utf8, valid_utf8};
use std::collections::BTreeSet;

verus! {

/// Whether a symbol makes its section global: a global function, object or
/// thread-local variable.
pub open spec fn makes_global(sym: SymbolTableEntry) -> bool {
    &&& symbol_binding(sym.info) == Some(SymbolBinding::Global)
    &&& symbol_type(sym.info) matches Some(t) && (t == SymbolType::Func || t == SymbolType::Object
        || t == SymbolType::Tls)
}

/// Whether the raw `st_info` byte of a symbol is that of a global object,
/// function or thread-local variable: binding STB_GLOBAL (1) in the high
/// four bits, type STT_OBJECT (1), STT_FUNC (2) or STT_TLS (6) in the low
/// four.
pub open spec fn global_info_code(info: u8) -> bool {
    info / 16 == 1 && (info % 16 == 1 || info % 16 == 2 || info % 16 == 6)
}

/// A symbol makes its section global exactly when its `st_info` byte says
/// STB_GLOBAL and STT_OBJECT, STT_FUNC or STT_TLS: a global static, a global
/// function or a global thread-local variable, and nothing else.
pub proof fn lemma_makes_global_codes(sym: SymbolTableEntry)
    ensures
        makes_global(sym) <==> global_info_code(sym.info),
{
}

/// The indices of the sections that a global symbol of `symbols` lives in.
pub fn global_section_indices(symbols: &Vec<SymbolTableEntry>) -> (globals: BTreeSet<usize>)
    ensures
        forall|x: usize|
            globals@.contains(x) <==> exists|k: int|
                0 <= k < symbols@.len() && makes_global(symbols@[k]) && symbols@[k].shndx == x,
        forall|k: int|
            0 <= k < symbols@.len() && global_info_code(#[trigger] symbols@[k].info) ==> globals@.contains(
                symbols@[k].shndx as usize,
            ),
        forall|x: usize|
            globals@.contains(x) ==> exists|k: int|
                0 <= k < symbols@.len() && global_info_code(#[trigger] symbols@[k].info)
                    && symbols@[k].shndx == x,
{
    broadcast use vstd::std_specs::btree::group_btree_axioms;
    let mut globals: BTreeSet<usize> = BTreeSet::new();
    let n = symbols.len();
    let mut k: usize = 0;
    while k < n
        invariant
            n == symbols@.len(),
            k <= n,
            forall|x: usize|
                globals@.contains(x) <==> exists|m: int|
                    0 <= m < k && makes_global(symbols@[m]) && symbols@[m].shndx == x,
        decreases n - k,
    {
        let entry = symbols[k];
        let binding = entry.get_binding();
        let global = match binding {
            Ok(SymbolBinding::Global) => match entry.get_type() {
                Ok(SymbolType::Func) | Ok(SymbolType::Object) | Ok(SymbolType::Tls) => true,
                _ => false,
            },
            _ => false,
        };
        assert(global == makes_global(symbols@[k as int]));
        if global {
            let index = entry.shndx as usize;
            globals.insert(index);
            assert forall|x: usize|
                globals@.contains(x) <==> exists|m: int|
                    0 <= m < k + 1 && makes_global(symbols@[m]) && symbols@[m].shndx == x by {
                if x == index {
                    assert(makes_global(symbols@[k as int]) && symbols@[k as int].shndx == x);
                }
                if exists|m: int| 0 <= m < k + 1 && makes_global(symbols@[m]) && symbols@[m].shndx == x {
                    let m = choose|m: int| 0 <= m < k + 1 && makes_global(symbols@[m]) && symbols@[m].shndx == x;
                    if m != k {
                        assert(exists|m2: int| 0 <= m2 < k && makes_global(symbols@[m2]) && symbols@[m2].shndx == x);
                    }
                }
            }
        } else {
            assert forall|x: usize|
                globals@.contains(x) <==> exists|m: int|
                    0 <= m < k + 1 && makes_global(symbols@[m]) && symbols@[m].shndx == x by {
                if exists|m: int| 0 <= m < k + 1 && makes_global(symbols@[m]) && symbols@[m].shndx == x {
                    let m = choose|m: int| 0 <= m < k + 1 && makes_global(symbols@[m]) && symbols@[m].shndx == x;
                    assert(m != k);
                }
            }
        }
        k += 1;
    }
    assert forall|j: int|
        0 <= j < symbols@.len() && global_info_code(#[trigger] symbols@[j].info) implies globals@.contains(
            symbols@[j].shndx as usize,
        ) by {
        lemma_makes_global_codes(symbols@[j]);
        assert(makes_global(symbols@[j]) && symbols@[j].shndx == symbols@[j].shndx as usize);
    }
    assert forall|x: usize| globals@.contains(x) implies exists|j: int|
        0 <= j < symbols@.len() && global_info_code(#[trigger] symbols@[j].info)
            && symbols@[j].shndx == x by {
        let j = choose|j: int| 0 <= j < symbols@.len() && makes_global(symbols@[j]) && symbols@[j].shndx == x;
        lemma_makes_global_codes(symbols@[j]);
    }
    globals
}

/// Which mapping a section is loaded into.
#[derive(Clone, Copy, Debug, Eq, PartialEq, Structural)]
pub enum MappingKind {
    Executable,
    ReadOnly,
    ReadWrite,
}

/// How a section's bytes get into its mapping.
#[derive(Clone, Copy, Debug, Eq, PartialEq, Structural)]
pub enum SectionFill {
    /// They are there already (the executable mapping is a copy of the start
    /// of the file).
    Nothing,
    /// They are copied from the section's contents in the file.
    CopyFromFile,
    /// They are zeroed.
    Zeroes,
}

/// A loaded section: the section `index`, whose contents are those of
/// `source`, goes into `mapping` at `mapping_offset` under `name` (before
/// demangling).
#[derive(Clone, Debug)]
pub struct SectionPlacement {
    pub index: u16,
    pub name: Vec<u8>,
    pub kind: SectionKind,
    pub size: usize,
    pub global: bool,
    pub mapping: MappingKind,
    pub mapping_offset: usize,
    pub fill: SectionFill,
    pub source: SectionHeader,
}

/// A placement as values.
pub type Placed = (u16, Seq<u8>, SectionKind, usize, bool, MappingKind, usize, SectionFill, SectionHeader);

/// The values of a placement.
pub open spec fn placed(p: SectionPlacement) -> Placed {
    (p.index, p.name@, p.kind, p.size, p.global, p.mapping, p.mapping_offset, p.fill, p.source)
}

/// How the contents of a section of type `t` are loaded: copied for the
/// types that hold plain bytes, zeroed for empty ones, and not at all
/// (an error) for any other type.
pub open spec fn fill_of(t: Option<SectionHeaderType>) -> Option<SectionFill> {
    match t {
        Some(SectionHeaderType::Null) | Some(SectionHeaderType::NoBits) => Some(SectionFill::Zeroes),
        Some(SectionHeaderType::ProgBits)
        | Some(SectionHeaderType::ShLib)
        | Some(SectionHeaderType::OsSpecific(_))
        | Some(SectionHeaderType::ProcessorSpecific(_))
        | Some(SectionHeaderType::User(_)) => Some(SectionFill::CopyFromFile),
        _ => None,
    }
}

/// The part of a section name after its first `n` bytes, when `n` is within
/// the name and not inside a character.
pub open spec fn name_after(name: Seq<u8>, n: int) -> Option<Seq<u8>> {
    if n <= name.len() && (n == name.len() || !(0x80 <= name[n] <= 0xbf)) {
        Some(name.skip(n))
    } else {
        None
    }
}

/// Whether `name` is one of the placeholder names `.text`, `.rodata`,
/// `.data` and `.bss`, which mark sections that are skipped.
pub open spec fn is_placeholder(name: Seq<u8>) -> bool {
    ||| name == seq![0x2eu8, 0x74u8, 0x65u8, 0x78u8, 0x74u8]
    ||| name == seq![0x2eu8, 0x72u8, 0x6fu8, 0x64u8, 0x61u8, 0x74u8, 0x61u8]
    ||| name == seq![0x2eu8, 0x64u8, 0x61u8, 0x74u8, 0x61u8]
    ||| name == seq![0x2eu8, 0x62u8, 0x73u8, 0x73u8]
}

/// The symbol name of a section after a prefix of `n` bytes: `Ok(Some)`
/// with it, `Ok(None)` for a placeholder section that is skipped, `Err`
/// with `message` otherwise.
pub open spec fn symbol_name_after(name: Seq<u8>, n: int, message: Seq<char>) -> Result<Option<Seq<u8>>, Seq<char>> {
    match name_after(name, n) {
        Some(rest) => Ok(Some(rest)),
        None => if is_placeholder(name) {
            Ok(None)
        } else {
            Err(message)
        },
    }
}

/// The section name after a prefix of `n` bytes (see [`name_after`]).
fn name_after_in(name: &[u8], n: usize) -> (r: Option<&[u8]>)
    ensures
        match r {
            Some(rest) => name_after(name@, n as int) == Some(rest@),
            None => name_after(name@, n as int) is None,
        },
{
    if n <= name.len() && (n == name.len() || !(0x80 <= name[n] && name[n] <= 0xbf)) {
        Some(vstd::slice::slice_subrange(name, n, name.len()))
    } else {
        None
    }
}

/// Whether `name` is a placeholder name (see [`is_placeholder`]).
fn is_placeholder_in(name: &[u8]) -> (r: bool)
    ensures
        r == is_placeholder(name@),
{
    let text: [u8; 5] = [0x2e, 0x74, 0x65, 0x78, 0x74];
    let rodata: [u8; 7] = [0x2e, 0x72, 0x6f, 0x64, 0x61, 0x74, 0x61];
    let data: [u8; 5] = [0x2e, 0x64, 0x61, 0x74, 0x61];
    let bss: [u8; 4] = [0x2e, 0x62, 0x73, 0x73];
    assert(text@ =~= seq![0x2eu8, 0x74u8, 0x65u8, 0x78u8, 0x74u8]);
    assert(rodata@ =~= seq![0x2eu8, 0x72u8, 0x6fu8, 0x64u8, 0x61u8, 0x74u8, 0x61u8]);
    assert(data@ =~= seq![0x2eu8, 0x64u8, 0x61u8, 0x74u8, 0x61u8]);
    assert(bss@ =~= seq![0x2eu8, 0x62u8, 0x73u8, 0x73u8]);
    crate::elf::slice_eq(name, text.as_slice()) || crate::elf::slice_eq(name, rodata.as_slice())
        || crate::elf::slice_eq(name, data.as_slice()) || crate::elf::slice_eq(name, bss.as_slice())
}

/// Whether `name` starts with `prefix`.
pub open spec fn starts_with(name: Seq<u8>, prefix: Seq<u8>) -> bool {
    prefix.len() <= name.len() && name.take(prefix.len() as int) == prefix
}

fn starts_with_in(name: &[u8], prefix: &[u8]) -> (r: bool)
    ensures
        r == starts_with(name@, prefix@),
{
    if prefix.len() > name.len() {
        return false;
    }
    let head = vstd::slice::slice_subrange(name, 0, prefix.len());
    assert(head@ =~= name@.take(prefix@.len() as int));
    crate::elf::slice_eq(head, prefix)
}

/// The section that stands for section `i` (header `sh`): a zero-sized
/// section refers to the next one when that one starts at the same offset.
/// `None` when the lookup would not run.
pub open spec fn substitute(input: Seq<u8>, body: HeaderBody, i: int, sh: SectionHeader) -> Option<
    Result<SectionHeader, Seq<char>>,
> {
    if sh.size == 0 {
        if !section_header_defined(input.len() as int, body, i + 1) {
            None
        } else {
            match section_at(input, body, i + 1) {
                Some(next) => Some(Ok(if next.offset == sh.offset { next } else { sh })),
                None => Some(Err("couldn't get the section following a zero-sized section"@)),
            }
        }
    } else {
        Some(Ok(sh))
    }
}

/// Loading section `sec` at `offset` into a mapping of `len` bytes: how its
/// bytes get there and the offset of the next section (the size rounded up
/// to the alignment); `Err(message)` when its contents are neither plain
/// bytes nor empty. `None` when the offset is not inside the mapping, the
/// section does not fit, its contents cannot be looked at, its alignment is
/// zero or the next offset overflows.
pub open spec fn load_into(input: Seq<u8>, sec: SectionHeader, offset: int, len: int, message: Seq<char>) -> Option<
    Result<(SectionFill, int), Seq<char>>,
> {
    let size = (sec.size as usize) as int;
    let align = (sec.align as usize) as int;
    if !(offset < len) || offset + size > len || !section_data_defined(input, sec) {
        None
    } else {
        match fill_of(section_type(sec.type_)) {
            None => Some(Err(message)),
            Some(f) => if align == 0 || offset + round_up(size, align) > usize::MAX {
                None
            } else {
                Some(Ok((f, offset + round_up(size, align))))
            },
        }
    }
}

/// The bytes of `unlikely.`.
pub open spec fn unlikely_prefix() -> Seq<u8> {
    seq![0x75u8, 0x6eu8, 0x6cu8, 0x69u8, 0x6bu8, 0x65u8, 0x6cu8, 0x79u8, 0x2eu8]
}

/// The bytes of `.rodata`.
pub open spec fn rodata_prefix() -> Seq<u8> {
    seq![0x2eu8, 0x72u8, 0x6fu8, 0x64u8, 0x61u8, 0x74u8, 0x61u8]
}

/// The bytes of `.gcc_except_table`.
pub open spec fn gcc_except_table_name() -> Seq<u8> {
    seq![
        0x2eu8, 0x67u8, 0x63u8, 0x63u8, 0x5fu8, 0x65u8, 0x78u8, 0x63u8, 0x65u8,
        0x70u8, 0x74u8, 0x5fu8, 0x74u8, 0x61u8, 0x62u8, 0x6cu8, 0x65u8
    ]
}

/// The bytes of `.eh_frame`.
pub open spec fn eh_frame_name() -> Seq<u8> {
    seq![0x2eu8, 0x65u8, 0x68u8, 0x5fu8, 0x66u8, 0x72u8, 0x61u8, 0x6du8, 0x65u8]
}

/// Where the allocated section `i`, named `name`, with flags `flags` and
/// standing in by `sec`, is loaded, given the offsets `offs` of the next
/// read-only and read-write sections and the lengths `lens` of those
/// mappings: the placement (none for a skipped placeholder) and the offsets
/// after it, or the error the loader stops with. `None` when loading would
/// fail an assertion or overflow.
pub open spec fn place(
    input: Seq<u8>,
    i: int,
    flags: u64,
    name: Seq<u8>,
    sec: SectionHeader,
    global: bool,
    offs: (int, int),
    lens: (int, int),
) -> Option<Result<(Option<Placed>, (int, int)), Seq<char>>> {
    let size = sec.size as usize;
    let is_write = flags & SHF_WRITE == SHF_WRITE;
    let is_exec = flags & SHF_EXECINSTR == SHF_EXECINSTR;
    let is_tls = flags & SHF_TLS == SHF_TLS;
    let is_bss = section_type(sec.type_) == Some(SectionHeaderType::NoBits);
    if is_exec && !is_write {
        match symbol_name_after(name, 6, "failed to get the .text. section's name after '.text.'"@) {
            Err(e) => Some(Err(e)),
            Ok(None) => Some(Ok((None, offs))),
            Ok(Some(n)) => {
                let n = if global && starts_with(n, unlikely_prefix()) {
                    n.skip(9)
                } else {
                    n
                };
                Some(
                    Ok(
                        (
                            Some(
                                (
                                    i as u16,
                                    n,
                                    SectionKind::Text,
                                    size,
                                    global,
                                    MappingKind::Executable,
                                    sec.offset as usize,
                                    SectionFill::Nothing,
                                    sec,
                                ),
                            ),
                            offs,
                        ),
                    ),
                )
            },
        }
    } else if is_tls {
        let named = if is_bss {
            symbol_name_after(name, 6, "failed to get the .tbss. section's name after '.tbss.'"@)
        } else {
            symbol_name_after(name, 7, "failed to get the .tdata. section's name after '.tdata.'"@)
        };
        match named {
            Err(e) => Some(Err(e)),
            Ok(None) => Some(Ok((None, offs))),
            Ok(Some(_)) => if is_bss {
                Some(Err("TODO: TLS section initialization"@))
            } else if offs.0 + size > lens.0 || !section_data_defined(input, sec) {
                None
            } else if fill_of(section_type(sec.type_)) == Some(SectionFill::CopyFromFile) {
                Some(Err("TODO: TLS section initialization"@))
            } else {
                Some(Err("couldn't get data for `.tdata` section"@))
            },
        }
    } else if is_write {
        let named = if is_bss {
            symbol_name_after(name, 5, "failed to get the .bss. section's name after '.bss.'"@)
        } else {
            symbol_name_after(name, 6, "failed to get the .data. section's name after '.data.'"@)
        };
        match named {
            Err(e) => Some(Err(e)),
            Ok(None) => Some(Ok((None, offs))),
            Ok(Some(n)) => match load_into(
                input,
                sec,
                offs.1,
                lens.1,
                "couldn't get data for `.data` section"@,
            ) {
                None => None,
                Some(Err(e)) => Some(Err(e)),
                Some(Ok((f, next))) => Some(
                    Ok(
                        (
                            Some(
                                (
                                    i as u16,
                                    n,
                                    if is_bss { SectionKind::Bss } else { SectionKind::Data },
                                    size,
                                    global,
                                    MappingKind::ReadWrite,
                                    offs.1 as usize,
                                    f,
                                    sec,
                                ),
                            ),
                            (offs.0, next),
                        ),
                    ),
                ),
            },
        }
    } else if starts_with(name, rodata_prefix()) {
        match symbol_name_after(name, 8, "failed to get the .rodata. section's name after '.rodata.'"@) {
            Err(e) => Some(Err(e)),
            Ok(None) => Some(Ok((None, offs))),
            Ok(Some(n)) => match load_into(
                input,
                sec,
                offs.0,
                lens.0,
                "couldn't get data for `.rodata` section"@,
            ) {
                None => None,
                Some(Err(e)) => Some(Err(e)),
                Some(Ok((f, next))) => Some(
                    Ok(
                        (
                            Some(
                                (
                                    i as u16,
                                    n,
                                    SectionKind::Rodata,
                                    size,
                                    global,
                                    MappingKind::ReadOnly,
                                    offs.0 as usize,
                                    f,
                                    sec,
                                ),
                            ),
                            (next, offs.1),
                        ),
                    ),
                ),
            },
        }
    } else if starts_with(name, gcc_except_table_name()) || name == eh_frame_name() {
        let gcc = starts_with(name, gcc_except_table_name());
        match load_into(
            input,
            sec,
            offs.0,
            lens.0,
            if gcc {
                "couldn't get data for `.gcc_except_table` section"@
            } else {
                "couldn't get data for `.eh_frame` section"@
            },
        ) {
            None => None,
            Some(Err(e)) => Some(Err(e)),
            Some(Ok((f, next))) => Some(
                Ok(
                    (
                        Some(
                            (
                                i as u16,
                                if gcc { gcc_except_table_name() } else { eh_frame_name() },
                                if gcc { SectionKind::GccExceptTable } else { SectionKind::EhFrame },
                                size,
                                false,
                                MappingKind::ReadOnly,
                                offs.0 as usize,
                                f,
                                sec,
                            ),
                        ),
                        (next, offs.1),
                    ),
                ),
            ),
        }
    } else {
        Some(Err("encountered unhandled section"@))
    }
}

/// The mapping that a section lands in follows its `sh_flags` bits
/// SHF_WRITE (bit 0), SHF_EXECINSTR (bit 2) and SHF_TLS (bit 10):
/// executable and not writable, it stays where it is in the file, in the
/// executable mapping, as text; otherwise a thread-local section is never
/// placed; a writable one goes to the read-write mapping at the read-write
/// offset, as bss when it has no bytes in the file (SHT_NOBITS, 8) and as
/// data otherwise; one that is neither writable nor executable goes to the
/// read-only mapping at the read-only offset. A section in the read-only or read-write mapping
/// advances that mapping's offset by its size rounded up to its alignment
/// and leaves the other offset alone, and its bytes are zeroed exactly when
/// it has none in the file (SHT_NULL 0, SHT_NOBITS 8). A skipped section
/// moves no offset.
pub proof fn lemma_place_mapping(
    input: Seq<u8>,
    i: int,
    flags: u64,
    name: Seq<u8>,
    sec: SectionHeader,
    global: bool,
    offs: (int, int),
    lens: (int, int),
)
    ensures
        place(input, i, flags, name, sec, global, offs, lens) matches Some(Ok((None, next))) ==> next
            == offs,
        place(input, i, flags, name, sec, global, offs, lens) matches Some(Ok((Some(p), next))) ==> {
            let exec = (flags / 4) % 2 == 1;
            let write = flags % 2 == 1;
            let tls = (flags / 1024) % 2 == 1;
            let step = round_up((sec.size as usize) as int, (sec.align as usize) as int);
            let zeroed = sec.type_ == 0 || sec.type_ == 8;
            &&& p.0 == i as u16 && p.3 == sec.size as usize && p.8 == sec
            &&& exec && !write ==> {
                &&& p.5 == MappingKind::Executable
                &&& p.2 == SectionKind::Text
                &&& p.6 == sec.offset as usize
                &&& p.7 == SectionFill::Nothing
                &&& next == offs
            }
            &&& !(exec && !write) ==> !tls && (p.7 == SectionFill::Zeroes <==> zeroed)
            &&& write ==> {
                &&& p.5 == MappingKind::ReadWrite
                &&& p.2 == (if sec.type_ == 8 {
                    SectionKind::Bss
                } else {
                    SectionKind::Data
                })
                &&& p.6 == offs.1 as usize
                &&& next == (offs.0, offs.1 + step)
            }
            &&& !exec && !write ==> {
                &&& p.5 == MappingKind::ReadOnly
                &&& p.6 == offs.0 as usize
                &&& next == (offs.0 + step, offs.1)
            }
        },
{
    lemma_section_flag_bits(flags);
    lemma_section_type_codes(sec.type_);
}

/// Where section `i` (header `sh`) is loaded (see [`place`]); a section
/// that is not allocated is passed over. `None` when loading would fail an
/// assertion or overflow.
pub open spec fn plan_step(
    input: Seq<u8>,
    body: HeaderBody,
    i: int,
    sh: SectionHeader,
    global: bool,
    offs: (int, int),
    lens: (int, int),
) -> Option<Result<(Option<Placed>, (int, int)), Seq<char>>> {
    if sh.flags & SHF_ALLOC == 0 {
        Some(Ok((None, offs)))
    } else if !section_name_defined(sh, input, body) {
        None
    } else {
        match section_name(sh, input, body) {
            Err(e) => Some(Err(e)),
            Ok(name) => match substitute(input, body, i, sh) {
                None => None,
                Some(Err(e)) => Some(Err(e)),
                Some(Ok(sec)) => place(input, i, sh.flags, name, sec, global, offs, lens),
            },
        }
    }
}

/// The placement as values, if there is one.
pub open spec fn placed_opt(p: Option<SectionPlacement>) -> Option<Placed> {
    match p {
        Some(x) => Some(placed(x)),
        None => None,
    }
}

/// The section that stands for section `index` (see [`substitute`]).
fn substitute_in(elf_file: &ElfFile, index: u16, sh: SectionHeader) -> (r: Result<SectionHeader, &'static str>)
    requires
        substitute(elf_file.input@, elf_file.header.body, index as int, sh) is Some,
    ensures
        match substitute(elf_file.input@, elf_file.header.body, index as int, sh)->0 {
            Ok(sec) => r == Ok::<SectionHeader, &'static str>(sec),
            Err(e) => r matches Err(m) && m@ == e,
        },
{
    if sh.size() == 0 {
        match elf_file.get_section_header(index + 1) {
            Ok(next) => {
                if next.offset() == sh.offset() {
                    Ok(next)
                } else {
                    Ok(sh)
                }
            },
            Err(_) => Err("couldn't get the section following a zero-sized section"),
        }
    } else {
        Ok(sh)
    }
}

/// How the contents of `sec` are loaded (see [`fill_of`]).
fn fill_in(elf_file: &ElfFile, sec: SectionHeader) -> (r: Option<SectionFill>)
    requires
        section_data_defined(elf_file.input@, sec),
    ensures
        r == fill_of(section_type(sec.type_)),
{
    match sec.get_data(elf_file) {
        Ok(SectionData::Undefined(_)) => Some(SectionFill::CopyFromFile),
        Ok(SectionData::Empty) => Some(SectionFill::Zeroes),
        _ => None,
    }
}

/// Loading `sec` at `offset` into a mapping of `len` bytes (see
/// [`load_into`]).
fn load_into_in(elf_file: &ElfFile, sec: SectionHeader, offset: usize, len: usize, message: &'static str) -> (r: Result<
    (SectionFill, usize),
    &'static str,
>)
    requires
        load_into(elf_file.input@, sec, offset as int, len as int, message@) is Some,
    ensures
        match load_into(elf_file.input@, sec, offset as int, len as int, message@)->0 {
            Ok((f, next)) => r == Ok::<(SectionFill, usize), &'static str>((f, next as usize)),
            Err(e) => r matches Err(m) && m@ == e,
        },
{
    let size = sec.size() as usize;
    let align = sec.align() as usize;
    match fill_in(elf_file, sec) {
        None => Err(message),
        Some(f) => {
            let addend = if size % align == 0 {
                size
            } else {
                size + (align - size % align)
            };
            Ok((f, offset + addend))
        },
    }
}

/// A copy of `b`.
fn to_vec(b: &[u8]) -> (v: Vec<u8>)
    ensures
        v@ == b@,
{
    let mut v: Vec<u8> = Vec::new();
    let mut i: usize = 0;
    while i < b.len()
        invariant
            i <= b@.len(),
            v@ == b@.take(i as int),
        decreases b@.len() - i,
    {
        v.push(b[i]);
        i += 1;
        assert(v@ =~= b@.take(i as int));
    }
    assert(b@.take(b@.len() as int) =~= b@);
    v
}

/// The symbol name after a prefix of `n` bytes (see [`symbol_name_after`]).
fn symbol_name_after_in<'a>(name: &'a [u8], n: usize, message: &'static str) -> (r: Result<Option<&'a [u8]>, &'static str>)
    ensures
        match symbol_name_after(name@, n as int, message@) {
            Ok(Some(rest)) => r matches Ok(Some(x)) && x@ == rest,
            Ok(None) => r matches Ok(None),
            Err(e) => r matches Err(m) && m@ == e,
        },
{
    match name_after_in(name, n) {
        Some(rest) => Ok(Some(rest)),
        None => {
            if is_placeholder_in(name) {
                Ok(None)
            } else {
                Err(message)
            }
        },
    }
}

/// A placement, built from its parts.
fn placement(
    index: u16,
    name: &[u8],
    kind: SectionKind,
    global: bool,
    mapping: MappingKind,
    mapping_offset: usize,
    fill: SectionFill,
    source: SectionHeader,
) -> (p: SectionPlacement)
    ensures
        placed(p) == (index, name@, kind, source.size as usize, global, mapping, mapping_offset, fill, source),
{
    SectionPlacement {
        index,
        name: to_vec(name),
        kind,
        size: source.size() as usize,
        global,
        mapping,
        mapping_offset,
        fill,
        source,
    }
}

/// Where section `index`, named `name`, is loaded (see [`place`]).
fn place_in(
    elf_file: &ElfFile,
    index: u16,
    flags: u64,
    name: &[u8],
    sec: SectionHeader,
    global: bool,
    offs: (usize, usize),
    lens: (usize, usize),
) -> (r: Result<(Option<SectionPlacement>, (usize, usize)), &'static str>)
    requires
        place(
            elf_file.input@,
            index as int,
            flags,
            name@,
            sec,
            global,
            (offs.0 as int, offs.1 as int),
            (lens.0 as int, lens.1 as int),
        ) is Some,
    ensures
        match place(
            elf_file.input@,
            index as int,
            flags,
            name@,
            sec,
            global,
            (offs.0 as int, offs.1 as int),
            (lens.0 as int, lens.1 as int),
        )->0 {
            Ok((p, o)) => r matches Ok((q, o2)) && placed_opt(q) == p && (o2.0 as int, o2.1 as int) == o,
            Err(e) => r matches Err(m) && m@ == e,
        },
{
    let is_write = flags & SHF_WRITE == SHF_WRITE;
    let is_exec = flags & SHF_EXECINSTR == SHF_EXECINSTR;
    let is_tls = flags & SHF_TLS == SHF_TLS;
    let t = sec.get_type();
    let is_bss = match t {
        Ok(SectionHeaderType::NoBits) => true,
        _ => false,
    };
    if is_exec && !is_write {
        let n = match symbol_name_after_in(name, 6, "failed to get the .text. section's name after '.text.'")? {
            Some(n) => n,
            None => return Ok((None, offs)),
        };
        let unlikely: [u8; 9] = [0x75, 0x6e, 0x6c, 0x69, 0x6b, 0x65, 0x6c, 0x79, 0x2e];
        assert(unlikely@ =~= unlikely_prefix());
        let n = if global && starts_with_in(n, unlikely.as_slice()) {
            vstd::slice::slice_subrange(n, 9, n.len())
        } else {
            n
        };
        let p = placement(
            index,
            n,
            SectionKind::Text,
            global,
            MappingKind::Executable,
            sec.offset() as usize,
            SectionFill::Nothing,
            sec,
        );
        Ok((Some(p), offs))
    } else if is_tls {
        let named = if is_bss {
            symbol_name_after_in(name, 6, "failed to get the .tbss. section's name after '.tbss.'")
        } else {
            symbol_name_after_in(name, 7, "failed to get the .tdata. section's name after '.tdata.'")
        };
        match named? {
            None => Ok((None, offs)),
            Some(_) => {
                if is_bss {
                    Err("TODO: TLS section initialization")
                } else {
                    match fill_in(elf_file, sec) {
                        Some(SectionFill::CopyFromFile) => Err("TODO: TLS section initialization"),
                        _ => Err("couldn't get data for `.tdata` section"),
                    }
                }
            },
        }
    } else if is_write {
        let named = if is_bss {
            symbol_name_after_in(name, 5, "failed to get the .bss. section's name after '.bss.'")
        } else {
            symbol_name_after_in(name, 6, "failed to get the .data. section's name after '.data.'")
        };
        let n = match named? {
            Some(n) => n,
            None => return Ok((None, offs)),
        };
        let (fill, next) = load_into_in(elf_file, sec, offs.1, lens.1, "couldn't get data for `.data` section")?;
        let kind = if is_bss {
            SectionKind::Bss
        } else {
            SectionKind::Data
        };
        let p = placement(index, n, kind, global, MappingKind::ReadWrite, offs.1, fill, sec);
        Ok((Some(p), (offs.0, next)))
    } else {
        let rodata: [u8; 7] = [0x2e, 0x72, 0x6f, 0x64, 0x61, 0x74, 0x61];
        let gcc: [u8; 17] = [
            0x2e, 0x67, 0x63, 0x63, 0x5f, 0x65, 0x78, 0x63, 0x65, 0x70, 0x74, 0x5f, 0x74, 0x61, 0x62,
            0x6c, 0x65,
        ];
        let eh: [u8; 9] = [0x2e, 0x65, 0x68, 0x5f, 0x66, 0x72, 0x61, 0x6d, 0x65];
        assert(rodata@ =~= rodata_prefix());
        assert(gcc@ =~= gcc_except_table_name());
        assert(eh@ =~= eh_frame_name());
        if starts_with_in(name, rodata.as_slice()) {
            let n = match symbol_name_after_in(name, 8, "failed to get the .rodata. section's name after '.rodata.'")? {
                Some(n) => n,
                None => return Ok((None, offs)),
            };
            let (fill, next) = load_into_in(elf_file, sec, offs.0, lens.0, "couldn't get data for `.rodata` section")?;
            let p = placement(index, n, SectionKind::Rodata, global, MappingKind::ReadOnly, offs.0, fill, sec);
            Ok((Some(p), (next, offs.1)))
        } else if starts_with_in(name, gcc.as_slice()) {
            let (fill, next) = load_into_in(
                elf_file,
                sec,
                offs.0,
                lens.0,
                "couldn't get data for `.gcc_except_table` section",
            )?;
            let p = placement(
                index,
                gcc.as_slice(),
                SectionKind::GccExceptTable,
                false,
                MappingKind::ReadOnly,
                offs.0,
                fill,
                sec,
            );
            Ok((Some(p), (next, offs.1)))
        } else if crate::elf::slice_eq(name, eh.as_slice()) {
            let (fill, next) = load_into_in(elf_file, sec, offs.0, lens.0, "couldn't get data for `.eh_frame` section")?;
            let p = placement(
                index,
                eh.as_slice(),
                SectionKind::EhFrame,
                false,
                MappingKind::ReadOnly,
                offs.0,
                fill,
                sec,
            );
            Ok((Some(p), (next, offs.1)))
        } else {
            Err("encountered unhandled section")
        }
    }
}

/// Where section `index` (header `sh`) is loaded (see [`plan_step`]).
pub fn plan_section(
    elf_file: &ElfFile,
    index: u16,
    sh: SectionHeader,
    global: bool,
    offs: (usize, usize),
    lens: (usize, usize),
) -> (r: Result<(Option<SectionPlacement>, (usize, usize)), &'static str>)
    requires
        plan_step(
            elf_file.input@,
            elf_file.header.body,
            index as int,
            sh,
            global,
            (offs.0 as int, offs.1 as int),
            (lens.0 as int, lens.1 as int),
        ) is Some,
    ensures
        match plan_step(
            elf_file.input@,
            elf_file.header.body,
            index as int,
            sh,
            global,
            (offs.0 as int, offs.1 as int),
            (lens.0 as int, lens.1 as int),
        )->0 {
            Ok((p, o)) => r matches Ok((q, o2)) && placed_opt(q) == p && (o2.0 as int, o2.1 as int) == o,
            Err(e) => r matches Err(m) && m@ == e,
        },
{
    if sh.flags() & SHF_ALLOC == 0 {
        return Ok((None, offs));
    }
    let name = sh.get_name(elf_file)?;
    let sec = substitute_in(elf_file, index, sh)?;
    place_in(elf_file, index, sh.flags(), name, sec, global, offs, lens)
}

/// `done` in front of the placements of a plan, if it has them.
pub open spec fn prepend(done: Seq<Placed>, r: Option<Result<Seq<Placed>, Seq<char>>>) -> Option<
    Result<Seq<Placed>, Seq<char>>,
> {
    match r {
        Some(Ok(s)) => Some(Ok(done + s)),
        other => other,
    }
}

/// The placements of the allocated sections from section `i` on (over the
/// sections the iteration reaches, up to the first section that lies
/// beyond the end of the file), given the offsets `offs` of the next
/// read-only and read-write sections, the lengths `lens` of those mappings
/// and the indices `globals` of the sections that hold global symbols; or
/// the first error. `None` when loading would fail an assertion or
/// overflow.
pub open spec fn plan_from(
    input: Seq<u8>,
    body: HeaderBody,
    i: int,
    globals: Set<usize>,
    offs: (int, int),
    lens: (int, int),
) -> Option<Result<Seq<Placed>, Seq<char>>>
    decreases body.sh_count - i,
{
    if i < 0 || i >= body.sh_count {
        Some(Ok(Seq::empty()))
    } else if !section_header_defined(input.len() as int, body, i) {
        None
    } else {
        match section_at(input, body, i) {
            None => Some(Ok(Seq::empty())),
            Some(sh) => match plan_step(input, body, i, sh, globals.contains(i as usize), offs, lens) {
                None => None,
                Some(Err(e)) => Some(Err(e)),
                Some(Ok((p, o))) => prepend(
                    match p {
                        Some(x) => seq![x],
                        None => Seq::empty(),
                    },
                    plan_from(input, body, i + 1, globals, o, lens),
                ),
            },
        }
    }
}

/// Where the loader puts each allocated section of `elf_file`, in section
/// order (see [`plan_from`]), given the indices of the sections that hold
/// global symbols and the lengths of the read-only and read-write mappings.
pub fn plan_object_sections(elf_file: &ElfFile, globals: &BTreeSet<usize>, lens: (usize, usize)) -> (r: Result<
    Vec<SectionPlacement>,
    &'static str,
>)
    requires
        plan_from(
            elf_file.input@,
            elf_file.header.body,
            0,
            globals@,
            (0, 0),
            (lens.0 as int, lens.1 as int),
        ) is Some,
    ensures
        match plan_from(
            elf_file.input@,
            elf_file.header.body,
            0,
            globals@,
            (0, 0),
            (lens.0 as int, lens.1 as int),
        )->0 {
            Ok(s) => r matches Ok(v) && v@.map_values(|p: SectionPlacement| placed(p)) == s,
            Err(e) => r matches Err(m) && m@ == e,
        },
{
    let ghost input = elf_file.input@;
    let ghost body = elf_file.header.body;
    let ghost l = (lens.0 as int, lens.1 as int);
    let mut placements: Vec<SectionPlacement> = Vec::new();
    let mut offs: (usize, usize) = (0, 0);
    let mut iter = elf_file.section_iter();
    loop
        invariant_except_break
            iter.file == elf_file,
            input == elf_file.input@,
            body == elf_file.header.body,
            l == (lens.0 as int, lens.1 as int),
            plan_from(input, body, iter.next_index as int, globals@, (offs.0 as int, offs.1 as int), l) is Some,
            plan_from(input, body, 0, globals@, (0, 0), l) == prepend(
                placements@.map_values(|p: SectionPlacement| placed(p)),
                plan_from(input, body, iter.next_index as int, globals@, (offs.0 as int, offs.1 as int), l),
            ),
        ensures
            plan_from(input, body, 0, globals@, (0, 0), l) == Some(
                Ok::<Seq<Placed>, Seq<char>>(placements@.map_values(|p: SectionPlacement| placed(p))),
            ),
        decreases body.sh_count - iter.next_index,
    {
        let index = iter.next_index;
        let section = match iter.next() {
            Some(section) => section,
            None => {
                assert(placements@.map_values(|p: SectionPlacement| placed(p)) + Seq::<Placed>::empty()
                    =~= placements@.map_values(|p: SectionPlacement| placed(p)));
                break;
            },
        };
        let global = globals.contains(&(index as usize));
        let ghost before = placements@.map_values(|p: SectionPlacement| placed(p));
        let (placed_section, next_offs) = plan_section(elf_file, index, section, global, offs, lens)?;
        match placed_section {
            Some(p) => {
                placements.push(p);
                assert(placements@.map_values(|p: SectionPlacement| placed(p)) =~= before + seq![
                    placed(p),
                ]);
            },
            None => {},
        }
        offs = next_offs;
        proof {
            let rest = plan_from(input, body, iter.next_index as int, globals@, (offs.0 as int, offs.1 as int), l);
            match rest {
                Some(Ok(s)) => {
                    assert(before + (placed_opt_seq(placed_section) + s) =~= placements@.map_values(
                        |p: SectionPlacement| placed(p),
                    ) + s);
                },
                _ => {},
            }
        }
    }
    Ok(placements)
}

/// The placement as a sequence of zero or one values.
pub open spec fn placed_opt_seq(p: Option<SectionPlacement>) -> Seq<Placed> {
    match p {
        Some(x) => seq![placed(x)],
        None => Seq::empty(),
    }
}

/// What `rustc_demangle::demangle(name).to_string()` gives for `name`: the
/// demangled form of a Rust symbol name.
pub uninterp spec fn demangled(name: Seq<char>) -> Seq<char>;

/// `rustc_demangle::demangle(name).to_string()`: a mangled Rust symbol
/// name in readable form (other names come back as they are). Its result is
/// named, not stated.
#[verifier::external_body]
fn demangle_str(name: &str) -> (r: String)
    ensures
        r@ == demangled(name@),
{
    rustc_demangle::demangle(name).to_string()
}

/// The name under which a section is registered: its name bytes read as
/// UTF-8 and demangled; `None` when the bytes are not UTF-8.
pub fn demangled_section_name(name: &[u8]) -> (r: Option<String>)
    ensures
        r is Some <==> valid_utf8(name@),
        r matches Some(s) ==> s@ == demangled(decode_utf8(name@)),
{
    match str_from_utf8(name) {
        Ok(s) => {
            proof {
                vstd::utf8::encode_utf8_decode_utf8(s@);
            }
            Some(demangle_str(s))
        },
        Err(_) => None,
    }
}

/// A relocation to apply: `entry`, from the relocation section whose target
/// is section `target_section`, against `symbol`.
#[derive(Clone, Copy, Debug)]
pub struct RelocationJob {
    pub target_section: usize,
    pub entry: Rela,
    pub symbol: SymbolTableEntry,
}

/// A relocation job as values.
pub open spec fn job(j: RelocationJob) -> (usize, Rela, SymbolTableEntry) {
    (j.target_section, j.entry, j.symbol)
}

/// Whether section `sh` holds relocations to apply: it is a relocation
/// section with addends and is not empty.
pub open spec fn is_relocation_section(sh: SectionHeader) -> bool {
    section_type(sh.type_) == Some(SectionHeaderType::Rela) && sh.size != 0
}

/// The relocations of the relocation sections from section `i` on, in
/// order, each with the symbol it refers to in `symbols` (over the sections
/// the iteration reaches). `None` when a relocation section cannot be read
/// or a relocation refers to a symbol that `symbols` does not have.
pub open spec fn jobs_from(input: Seq<u8>, body: HeaderBody, i: int, symbols: Seq<SymbolTableEntry>) -> Option<
    Seq<(usize, Rela, SymbolTableEntry)>,
>
    decreases body.sh_count - i,
{
    if i < 0 || i >= body.sh_count {
        Some(Seq::empty())
    } else if !section_header_defined(input.len() as int, body, i) {
        None
    } else {
        match section_at(input, body, i) {
            None => Some(Seq::empty()),
            Some(sh) => if !is_relocation_section(sh) {
                jobs_from(input, body, i + 1, symbols)
            } else if !section_data_defined(input, sh) {
                None
            } else {
                let entries = rela_array(section_bytes(input, sh));
                if exists|k: int| 0 <= k < entries.len() && #[trigger] entries[k].info / 0x1_0000_0000 >= symbols.len() {
                    None
                } else {
                    match jobs_from(input, body, i + 1, symbols) {
                        None => None,
                        Some(rest) => Some(
                            entries.map_values(
                                |e: Rela| (sh.info as usize, e, symbols[(e.info / 0x1_0000_0000) as int]),
                            ) + rest,
                        ),
                    }
                }
            },
        }
    }
}

/// The relocations to apply to the loaded sections of `elf_file` (see
/// [`jobs_from`]), against the symbol table `symbols`.
pub fn relocation_jobs(elf_file: &ElfFile, symbols: &Vec<SymbolTableEntry>) -> (jobs: Vec<RelocationJob>)
    requires
        jobs_from(elf_file.input@, elf_file.header.body, 0, symbols@) is Some,
    ensures
        jobs@.map_values(|j: RelocationJob| job(j)) == jobs_from(elf_file.input@, elf_file.header.body, 0, symbols@)->0,
{
    let ghost input = elf_file.input@;
    let ghost body = elf_file.header.body;
    let mut jobs: Vec<RelocationJob> = Vec::new();
    let mut iter = elf_file.section_iter();
    loop
        invariant_except_break
            iter.file == elf_file,
            input == elf_file.input@,
            body == elf_file.header.body,
            jobs_from(input, body, iter.next_index as int, symbols@) is Some,
            jobs_from(input, body, 0, symbols@)->0 == jobs@.map_values(|j: RelocationJob| job(j)) + jobs_from(
                input,
                body,
                iter.next_index as int,
                symbols@,
            )->0,
        ensures
            jobs_from(input, body, 0, symbols@)->0 == jobs@.map_values(|j: RelocationJob| job(j)),
        decreases body.sh_count - iter.next_index,
    {
        let section = match iter.next() {
            Some(section) => section,
            None => {
                assert(jobs@.map_values(|j: RelocationJob| job(j)) + Seq::empty() =~= jobs@.map_values(
                    |j: RelocationJob| job(j),
                ));
                break;
            },
        };
        let relocations = match section.get_type() {
            Ok(SectionHeaderType::Rela) => section.size() != 0,
            _ => false,
        };
        if !relocations {
            continue;
        }
        let entries = match section.get_data(elf_file) {
            Ok(SectionData::Rela(entries)) => entries,
            _ => {
                proof {
                    assert(false);
                }
                Vec::new()
            },
        };
        let ghost before = jobs@.map_values(|j: RelocationJob| job(j));
        let target_section = section.info() as usize;
        let n = entries.len();
        let mut k: usize = 0;
        while k < n
            invariant
                n == entries@.len(),
                entries@ == rela_array(section_bytes(input, section)),
                k <= n,
                forall|m: int| 0 <= m < n ==> #[trigger] entries@[m].info / 0x1_0000_0000 < symbols@.len(),
                target_section == section.info as usize,
                jobs@.map_values(|j: RelocationJob| job(j)) == before + entries@.take(k as int).map_values(
                    |e: Rela| (section.info as usize, e, symbols@[(e.info / 0x1_0000_0000) as int]),
                ),
            decreases n - k,
        {
            let entry = entries[k];
            let index = entry.get_symbol_table_index() as usize;
            let symbol = symbols[index];
            let ghost old_jobs = jobs@;
            let new_job = RelocationJob { target_section, entry, symbol };
            jobs.push(new_job);
            assert(jobs@.map_values(|j: RelocationJob| job(j)) =~= old_jobs.map_values(|j: RelocationJob| job(j)).push(job(new_job)));
            assert(entries@.take(k as int + 1) =~= entries@.take(k as int).push(entry));
            assert(job(new_job) == (section.info as usize, entry, symbols@[(entry.info / 0x1_0000_0000) as int]));
            k += 1;
            assert(jobs@.map_values(|j: RelocationJob| job(j)) =~= before + entries@.take(k as int).map_values(
                |e: Rela| (section.info as usize, e, symbols@[(e.info / 0x1_0000_0000) as int]),
            ));
        }
        assert(entries@.take(n as int) =~= entries@);
        proof {
            let here = entries@.map_values(
                |e: Rela| (section.info as usize, e, symbols@[(e.info / 0x1_0000_0000) as int]),
            );
            let rest = jobs_from(input, body, iter.next_index as int, symbols@)->0;
            assert(before + (here + rest) =~= (before + here) + rest);
        }
    }
    jobs
}

/// The bytes of `.data.rel.ro.`.
pub open spec fn data_rel_ro_prefix() -> Seq<u8> {
    seq![0x2eu8, 0x64u8, 0x61u8, 0x74u8, 0x61u8, 0x2eu8, 0x72u8, 0x65u8, 0x6cu8, 0x2eu8, 0x72u8, 0x6fu8, 0x2eu8]
}

/// The name of the section that holds a symbol named `name`: the name
/// without a leading `.data.rel.ro.`.
pub fn source_section_name(name: &[u8]) -> (r: &[u8])
    ensures
        r@ == if starts_with(name@, data_rel_ro_prefix()) {
            name@.skip(13)
        } else {
            name@
        },
{
    let prefix: [u8; 13] = [0x2e, 0x64, 0x61, 0x74, 0x61, 0x2e, 0x72, 0x65, 0x6c, 0x2e, 0x72, 0x6f, 0x2e];
    assert(prefix@ =~= data_rel_ro_prefix());
    if starts_with_in(name, prefix.as_slice()) {
        vstd::slice::slice_subrange(name, 13, name.len())
    } else {
        name
    }
}

/// A size rounded up to a positive alignment is no smaller.
proof fn lemma_round_up(size: int, align: int)
    requires
        size >= 0,
        align > 0,
    ensures
        round_up(size, align) >= size,
{
    vstd::arithmetic::div_mod::lemma_mod_bound(size, align);
}

/// Whether placement `p` lies inside its mapping, given the lengths of the
/// read-only and read-write mappings (the executable mapping holds the file's
/// sections where the file has them).
pub open spec fn inside_mapping(p: Placed, lens: (int, int)) -> bool {
    match p.5 {
        MappingKind::ReadOnly => p.6 + p.3 <= lens.0,
        MappingKind::ReadWrite => p.6 + p.3 <= lens.1,
        MappingKind::Executable => true,
    }
}

/// Whether placement `p` lies before offset `offs` of its mapping (read-only
/// or read-write; the executable mapping is not shared out).
pub open spec fn before_offsets(p: Placed, offs: (int, int)) -> bool {
    match p.5 {
        MappingKind::ReadOnly => p.6 + p.3 <= offs.0,
        MappingKind::ReadWrite => p.6 + p.3 <= offs.1,
        MappingKind::Executable => true,
    }
}

/// Whether placement `p` starts at or after offset `offs` of its mapping.
pub open spec fn from_offsets(p: Placed, offs: (int, int)) -> bool {
    match p.5 {
        MappingKind::ReadOnly => p.6 >= offs.0,
        MappingKind::ReadWrite => p.6 >= offs.1,
        MappingKind::Executable => true,
    }
}

/// One placement step keeps within the mappings and moves the offsets past
/// what it placed.
proof fn lemma_place_step(
    input: Seq<u8>,
    body: HeaderBody,
    i: int,
    sh: SectionHeader,
    global: bool,
    offs: (int, int),
    lens: (int, int),
)
    requires
        0 <= offs.0 <= usize::MAX,
        0 <= offs.1 <= usize::MAX,
        plan_step(input, body, i, sh, global, offs, lens) matches Some(Ok((p, o))),
    ensures
        plan_step(input, body, i, sh, global, offs, lens) matches Some(Ok((p, o))) && ({
            &&& offs.0 <= o.0 <= usize::MAX
            &&& offs.1 <= o.1 <= usize::MAX
            &&& p matches Some(x) ==> inside_mapping(x, lens) && from_offsets(x, offs) && before_offsets(x, o)
        }),
{
    if let Some(Ok((p, o))) = plan_step(input, body, i, sh, global, offs, lens) {
        if sh.flags & SHF_ALLOC != 0 {
            if let Ok(name) = section_name(sh, input, body) {
                if let Some(Ok(sec)) = substitute(input, body, i, sh) {
                    let size = (sec.size as usize) as int;
                    let align = (sec.align as usize) as int;
                    if align > 0 {
                        lemma_round_up(size, align);
                    }
                }
            }
        }
    }
}

/// The placements from section `i` on all lie inside their mappings, start
/// at or after the offsets `offs`, and do not overlap one another.
proof fn lemma_plan_from_disjoint(
    input: Seq<u8>,
    body: HeaderBody,
    i: int,
    globals: Set<usize>,
    offs: (int, int),
    lens: (int, int),
)
    requires
        0 <= offs.0 <= usize::MAX,
        0 <= offs.1 <= usize::MAX,
        plan_from(input, body, i, globals, offs, lens) matches Some(Ok(_)),
    ensures
        plan_from(input, body, i, globals, offs, lens) matches Some(Ok(s)) && ({
            &&& forall|k: int| 0 <= k < s.len() ==> inside_mapping(#[trigger] s[k], lens) && from_offsets(s[k], offs)
            &&& forall|k: int, l: int| 0 <= k < l < s.len() && (#[trigger] s[k]).5 == (#[trigger] s[l]).5
                && s[k].5 != MappingKind::Executable ==> s[k].6 + s[k].3 <= s[l].6
        }),
    decreases body.sh_count - i,
{
    if 0 <= i < body.sh_count && section_header_defined(input.len() as int, body, i) {
        if let Some(sh) = section_at(input, body, i) {
            let global = globals.contains(i as usize);
            lemma_place_step(input, body, i, sh, global, offs, lens);
            if let Some(Ok((p, o))) = plan_step(input, body, i, sh, global, offs, lens) {
                lemma_plan_from_disjoint(input, body, i + 1, globals, o, lens);
                let rest = match plan_from(input, body, i + 1, globals, o, lens) {
                    Some(Ok(r)) => r,
                    _ => Seq::empty(),
                };
                let here: Seq<Placed> = match p {
                    Some(x) => seq![x],
                    None => Seq::empty(),
                };
                let s = here + rest;
                assert(plan_from(input, body, i, globals, offs, lens) == Some(Ok::<Seq<Placed>, Seq<char>>(s)));
                assert forall|k: int| 0 <= k < s.len() implies inside_mapping(#[trigger] s[k], lens) && from_offsets(s[k], offs) by {
                    if k >= here.len() {
                        assert(s[k] == rest[k - here.len()]);
                    }
                }
                assert forall|k: int, l: int| 0 <= k < l < s.len() && (#[trigger] s[k]).5 == (#[trigger] s[l]).5
                    && s[k].5 != MappingKind::Executable implies s[k].6 + s[k].3 <= s[l].6 by {
                    assert(s[l] == rest[l - here.len()]);
                    if k >= here.len() {
                        assert(s[k] == rest[k - here.len()]);
                    }
                }
            }
        }
    }
}

/// The sections that the loader copies into the read-only and read-write
/// mappings each lie inside their mapping, and no two sections in the same
/// mapping overlap.
pub proof fn lemma_placements_disjoint(input: Seq<u8>, body: HeaderBody, globals: Set<usize>, lens: (int, int))
    requires
        plan_from(input, body, 0, globals, (0, 0), lens) matches Some(Ok(_)),
    ensures
        plan_from(input, body, 0, globals, (0, 0), lens) matches Some(Ok(s)) && ({
            &&& forall|k: int| 0 <= k < s.len() ==> inside_mapping(#[trigger] s[k], lens)
            &&& forall|k: int, l: int| 0 <= k < l < s.len() && (#[trigger] s[k]).5 == (#[trigger] s[l]).5
                && s[k].5 != MappingKind::Executable ==> s[k].6 + s[k].3 <= s[l].6
        }),
{
    lemma_plan_from_disjoint(input, body, 0, globals, (0, 0), lens);
}

} // verus!
