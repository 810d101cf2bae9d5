//! # Loader
//!
//! The kinds of sections the runtime loader places, and the crate names
//! that a (demangled) symbol name refers to.
use vstd::prelude::*;
use vstd::string::StringSliceAdditionalSpecFns;
use vstd::utf8::{decode_utf8, is_char_boundary, valid_utf8};
use crate::bytes::{le_u32, le_u64, write_u32_le, write_u64_le};
use crate::elf::{
    bytes_result, lemma_section_flag_bits, lemma_section_type_codes, section_at,
    section_header_defined, section_name, section_name_defined, section_type, ElfFile, HeaderBody,
    Rela, SectionHeader, SectionHeaderType, SHF_ALLOC, SHF_EXECINSTR, SHF_TLS, SHF_WRITE,
};

verus! {

/// The kind of a loaded section.
#[derive(Clone, Copy, Debug, Eq, PartialEq, Structural)]
pub enum SectionKind {
    Text,
    Rodata,
    Data,
    Bss,
    TlsData,
    TlsBss,
    GccExceptTable,
    EhFrame,
}

impl SectionKind {
    /// The name of the ELF section of this kind.
    pub fn name(&self) -> (name: &'static str)
        ensures
            name@ == match self {
                SectionKind::Text => ".text"@,
                SectionKind::Rodata => ".rodata"@,
                SectionKind::Data => ".data"@,
                SectionKind::Bss => ".bss"@,
                SectionKind::TlsData => ".tdata"@,
                SectionKind::TlsBss => ".tbss"@,
                SectionKind::GccExceptTable => ".gcc_except_table"@,
                SectionKind::EhFrame => ".eh_frame"@,
            },
    {
        match self {
            SectionKind::Text => ".text",
            SectionKind::Rodata => ".rodata",
            SectionKind::Data => ".data",
            SectionKind::Bss => ".bss",
            SectionKind::TlsData => ".tdata",
            SectionKind::TlsBss => ".tbss",
            SectionKind::GccExceptTable => ".gcc_except_table",
            SectionKind::EhFrame => ".eh_frame",
        }
    }
}

/// What `char::is_alphanumeric` answers for `c`: whether `c` has the
/// Unicode `Alphabetic` property or a numeric general category.
pub uninterp spec fn char_is_alphanumeric(c: char) -> bool;

/// `char::is_alphanumeric`. Its answer is named; for an ASCII character it
/// is whether the character is a letter or a digit.
#[verifier::external_body]
fn is_alphanumeric(c: char) -> (r: bool)
    ensures
        r == char_is_alphanumeric(c),
        (c as u32) < 0x80 ==> (r <==> ('a' <= c <= 'z' || 'A' <= c <= 'Z' || '0' <= c <= '9')),
{
    c.is_alphanumeric()
}

/// The bytes of `::`.
pub open spec fn path_separator() -> Seq<u8> {
    seq![0x3au8, 0x3au8]
}

/// The bytes of ` as ` (with its spaces).
pub open spec fn as_keyword() -> Seq<u8> {
    seq![0x20u8, 0x61u8, 0x73u8, 0x20u8]
}

/// Whether `pat` occurs in `b` at position `i`.
pub open spec fn occurs_at(b: Seq<u8>, pat: Seq<u8>, i: int) -> bool {
    0 <= i && i + pat.len() <= b.len() && b.subrange(i, i + pat.len()) == pat
}

/// The first position `i` from `from` on at which `pat` occurs in `b` and
/// ends no later than `to`.
pub open spec fn find_in(b: Seq<u8>, pat: Seq<u8>, from: int, to: int) -> Option<int>
    decreases to - from,
{
    if from < 0 || from + pat.len() > to || pat.len() == 0 {
        None
    } else if occurs_at(b, pat, from) {
        Some(from)
    } else {
        find_in(b, pat, from + 1, to)
    }
}

/// A character that may be part of a crate name: a letter or a digit, or
/// `_`. Among ASCII characters the letters and digits are `a`-`z`, `A`-`Z`
/// and `0`-`9`; beyond ASCII they are what [`char_is_alphanumeric`] says.
pub open spec fn is_name_char(c: char) -> bool {
    if (c as u32) < 0x80 {
        'a' <= c <= 'z' || 'A' <= c <= 'Z' || '0' <= c <= '9' || c == '_'
    } else {
        char_is_alphanumeric(c)
    }
}

/// The character that starts at byte `p` of the UTF-8 text `b`.
pub open spec fn char_at(b: Seq<u8>, p: int) -> char {
    decode_utf8(b.subrange(p, b.len() as int))[0]
}

/// The start of the last character in bytes `lo..hi` of `b` that may not be
/// part of a crate name.
pub open spec fn last_non_name(b: Seq<u8>, lo: int, hi: int) -> Option<int>
    decreases hi - lo,
{
    if hi <= lo {
        None
    } else if is_char_boundary(b, hi - 1) && !is_name_char(char_at(b, hi - 1)) {
        Some(hi - 1)
    } else {
        last_non_name(b, lo, hi - 1)
    }
}

/// Where the crate name that ends at `end` begins: just after the last
/// character in `start..end` that may not be part of a name (that character
/// taken as one byte), or at `start`.
pub open spec fn name_begin(b: Seq<u8>, start: int, end: int) -> int {
    match last_non_name(b, start, end) {
        Some(p) => p + 1,
        None => start,
    }
}

/// The byte ranges of the crate names in the symbol `b`, scanning from
/// `start`: the name before the first `::` from `start` on, unless a ` as `
/// comes first; then the same again from just after the first ` as `, if
/// there is one.
pub open spec fn name_ranges(b: Seq<u8>, start: int) -> Seq<(int, int)>
    decreases b.len() - start,
{
    let here: Seq<(int, int)> = match find_in(b, path_separator(), start, b.len() as int) {
        Some(end) => if find_in(b, as_keyword(), start, end) is None {
            seq![(name_begin(b, start, end), end)]
        } else {
            Seq::empty()
        },
        None => Seq::empty(),
    };
    match find_in(b, as_keyword(), start, b.len() as int) {
        Some(i) => {
            proof {
                lemma_find_in_bounds(b, as_keyword(), start, b.len() as int);
            }
            if i + 4 > start {
                here + name_ranges(b, i + 4)
            } else {
                here
            }
        },
        None => here,
    }
}

/// `s` without the elements equal to the one before them.
pub open spec fn dedup<T>(s: Seq<T>) -> Seq<T>
    decreases s.len(),
{
    if s.len() <= 1 {
        s
    } else if s.last() == s[s.len() - 2] {
        dedup(s.drop_last())
    } else {
        dedup(s.drop_last()).push(s.last())
    }
}

/// Whether the byte range `r` of the UTF-8 text `b` can be taken as a
/// string: it is in order, within `b`, and starts and ends on characters.
pub open spec fn is_str_range(b: Seq<u8>, r: (int, int)) -> bool {
    &&& 0 <= r.0 <= r.1 <= b.len()
    &&& is_char_boundary(b, r.0)
    &&& is_char_boundary(b, r.1)
}

/// The crate names in the symbol `b`: the text of each range of
/// [`name_ranges`], with repeats of the one before dropped, and ranges that
/// cannot be taken as a string left out.
pub open spec fn crate_names_of(b: Seq<u8>) -> Seq<Seq<u8>> {
    dedup(name_ranges(b, 0)).filter_map(|r: (int, int)| str_at(b, r))
}

/// A position that [`find_in`] finds lies in its window, and the pattern
/// occurs there.
pub proof fn lemma_find_in_bounds(b: Seq<u8>, pat: Seq<u8>, from: int, to: int)
    ensures
        find_in(b, pat, from, to) matches Some(i) ==> from <= i && i + pat.len() <= to
            && occurs_at(b, pat, i),
    decreases to - from,
{
    if !(from < 0 || from + pat.len() > to || pat.len() == 0) && !occurs_at(b, pat, from) {
        lemma_find_in_bounds(b, pat, from + 1, to);
    }
}

/// The first position from `from` on at which `pat` occurs in `b` and ends
/// no later than `to`.
fn find_bytes(b: &[u8], pat: &[u8], from: usize, to: usize) -> (r: Option<usize>)
    requires
        to <= b@.len(),
    ensures
        match r {
            Some(i) => find_in(b@, pat@, from as int, to as int) == Some(i as int),
            None => find_in(b@, pat@, from as int, to as int) is None,
        },
{
    let plen = pat.len();
    if plen == 0 {
        return None;
    }
    let mut i = from;
    while i <= to && plen <= to - i
        invariant
            to <= b@.len(),
            plen == pat@.len(),
            plen > 0,
            from <= i,
            find_in(b@, pat@, from as int, to as int) == find_in(b@, pat@, i as int, to as int),
        decreases to - i,
    {
        let mut j: usize = 0;
        let mut same = true;
        while j < plen
            invariant
                i + plen <= to <= b@.len(),
                plen == pat@.len(),
                j <= plen,
                same <==> forall|k: int| 0 <= k < j ==> b@[i + k] == pat@[k],
            decreases plen - j,
        {
            if b[i + j] != pat[j] {
                same = false;
            }
            j += 1;
        }
        if same {
            assert(b@.subrange(i as int, i + plen) =~= pat@);
            return Some(i);
        }
        assert(!occurs_at(b@, pat@, i as int)) by {
            let k = choose|k: int| 0 <= k < plen && b@[i + k] != pat@[k];
            assert(b@.subrange(i as int, i + plen)[k] != pat@[k]);
        }
        i += 1;
    }
    None
}

/// Where the crate name that ends at byte `end` of `symbol_name` begins
/// (see [`name_begin`]).
fn name_begin_in(symbol_name: &str, start: usize, end: usize) -> (r: usize)
    requires
        start <= end <= symbol_name.spec_bytes().len(),
    ensures
        r == name_begin(symbol_name.spec_bytes(), start as int, end as int),
{
    broadcast use vstd::utf8::encode_utf8_valid_utf8, vstd::utf8::encode_utf8_decode_utf8;
    broadcast use vstd::string::axiom_spec_iter, vstd::string::next_postcondition;

    let ghost b = symbol_name.spec_bytes();
    let mut p = end;
    while p > start
        invariant
            b == symbol_name.spec_bytes(),
            valid_utf8(b),
            start <= p <= end <= b.len(),
            last_non_name(b, start as int, end as int) == last_non_name(b, start as int, p as int),
        decreases p - start,
    {
        let q = p - 1;
        if symbol_name.is_char_boundary(q) {
            let (_, rest) = symbol_name.split_at(q);
            proof {
                assert(rest.spec_bytes() =~= b.subrange(q as int, b.len() as int));
                assert(rest.spec_bytes() == vstd::utf8::encode_utf8(rest@));
                vstd::utf8::encode_utf8_decode_utf8(rest@);
                assert(decode_utf8(b.subrange(q as int, b.len() as int)) == rest@);
                if rest@.len() == 0 {
                    assert(rest.spec_bytes().len() == 0);
                }
            }
            let mut chars = rest.chars();
            let c = chars.next();
            match c {
                Some(ch) => {
                    assert(ch == char_at(b, q as int));
                    let named = is_alphanumeric(ch) || ch == '_';
                    if !named {
                        return q + 1;
                    }
                },
                None => {},
            }
        }
        p = q;
    }
    start
}

/// The ranges as pairs of integers.
pub open spec fn int_ranges(r: Seq<(usize, usize)>) -> Seq<(int, int)> {
    r.map_values(|x: (usize, usize)| (x.0 as int, x.1 as int))
}

/// The byte ranges of the crate names in `symbol_name` (see
/// [`name_ranges`]).
fn crate_name_ranges_in_symbol(symbol_name: &str) -> (ranges: Vec<(usize, usize)>)
    ensures
        int_ranges(ranges@) == name_ranges(symbol_name.spec_bytes(), 0),
        forall|i: int| 0 <= i < ranges@.len() ==> (#[trigger] ranges@[i]).0 <= ranges@[i].1 <= symbol_name.spec_bytes().len(),
{
    let bytes = symbol_name.as_bytes();
    let ghost b = bytes@;
    let len = bytes.len();
    let separator: [u8; 2] = [0x3a, 0x3a];
    let keyword: [u8; 4] = [0x20, 0x61, 0x73, 0x20];
    assert(separator@ =~= path_separator());
    assert(keyword@ =~= as_keyword());
    let mut ranges: Vec<(usize, usize)> = Vec::new();
    let mut start: usize = 0;
    loop
        invariant_except_break
            b == symbol_name.spec_bytes(),
            bytes@ == b,
            len == b.len(),
            start <= len,
            separator@ == path_separator(),
            keyword@ == as_keyword(),
            int_ranges(ranges@) + name_ranges(b, start as int) == name_ranges(b, 0),
            forall|i: int| 0 <= i < ranges@.len() ==> (#[trigger] ranges@[i]).0 <= ranges@[i].1 <= len,
        ensures
            int_ranges(ranges@) == name_ranges(b, 0),
            forall|i: int| 0 <= i < ranges@.len() ==> (#[trigger] ranges@[i]).0 <= ranges@[i].1 <= len,
        decreases len - start,
    {
        let ghost before = int_ranges(ranges@);
        let ghost rest = name_ranges(b, start as int);
        proof {
            lemma_find_in_bounds(b, path_separator(), start as int, len as int);
            lemma_find_in_bounds(b, as_keyword(), start as int, len as int);
        }
        let end = find_bytes(bytes, separator.as_slice(), start, len);
        let mut pushed = false;
        if let Some(end) = end {
            let inner = find_bytes(bytes, keyword.as_slice(), start, end);
            if inner.is_none() {
                let begin = name_begin_in(symbol_name, start, end);
                proof {
                    match last_non_name(b, start as int, end as int) {
                        Some(q) => lemma_last_non_name_bounds(b, start as int, end as int),
                        None => {},
                    }
                }
                ranges.push((begin, end));
                pushed = true;
            }
        }
        let ghost here: Seq<(int, int)> = if pushed {
            seq![(name_begin(b, start as int, end.unwrap() as int), end.unwrap() as int)]
        } else {
            Seq::empty()
        };
        assert(int_ranges(ranges@) =~= before + here);
        let next = find_bytes(bytes, keyword.as_slice(), start, len);
        match next {
            Some(i) => {
                assert(rest == here + name_ranges(b, i + 4));
                assert(int_ranges(ranges@) + name_ranges(b, i + 4) =~= before + rest);
                start = i + 4;
            },
            None => {
                assert(rest == here);
                assert(name_ranges(b, 0) =~= int_ranges(ranges@)) by {
                    assert(before + rest =~= int_ranges(ranges@));
                }
                break;
            },
        }
    }
    ranges
}

/// The start found by [`last_non_name`] lies in its window.
proof fn lemma_last_non_name_bounds(b: Seq<u8>, lo: int, hi: int)
    ensures
        last_non_name(b, lo, hi) matches Some(p) ==> lo <= p < hi,
    decreases hi - lo,
{
    if hi > lo {
        lemma_last_non_name_bounds(b, lo, hi - 1);
    }
}

/// `ranges` with the repeats of the range before them dropped (see
/// [`dedup`]).
fn dedup_ranges(ranges: &Vec<(usize, usize)>, Ghost(limit): Ghost<int>) -> (unique: Vec<(usize, usize)>)
    requires
        forall|k: int| 0 <= k < ranges@.len() ==> (#[trigger] ranges@[k]).0 <= ranges@[k].1 <= limit,
    ensures
        int_ranges(unique@) == dedup(int_ranges(ranges@)),
        forall|k: int| 0 <= k < unique@.len() ==> (#[trigger] unique@[k]).0 <= unique@[k].1 <= limit,
{
    let ghost all = int_ranges(ranges@);
    let mut unique: Vec<(usize, usize)> = Vec::new();
    let n = ranges.len();
    let mut i: usize = 0;
    while i < n
        invariant
            n == ranges@.len(),
            all == int_ranges(ranges@),
            i <= n,
            int_ranges(unique@) == dedup(all.take(i as int)),
            forall|k: int| 0 <= k < ranges@.len() ==> (#[trigger] ranges@[k]).0 <= ranges@[k].1 <= limit,
            forall|k: int| 0 <= k < unique@.len() ==> (#[trigger] unique@[k]).0 <= unique@[k].1 <= limit,
        decreases n - i,
    {
        let r = ranges[i];
        let repeat = i > 0 && ranges[i - 1].0 == r.0 && ranges[i - 1].1 == r.1;
        let ghost t = all.take(i as int + 1);
        assert(t.drop_last() =~= all.take(i as int));
        assert(t.last() == all[i as int]);
        if i > 0 {
            assert(t[t.len() - 2] == all[i - 1]);
        }
        if !repeat {
            unique.push(r);
            assert(int_ranges(unique@) =~= dedup(all.take(i as int)).push(all[i as int]));
        }
        i += 1;
    }
    assert(all.take(n as int) =~= all);
    unique
}

/// The text of a range of the UTF-8 text `b`, when it can be taken as a
/// string (see [`is_str_range`]).
pub open spec fn str_at(b: Seq<u8>, r: (int, int)) -> Option<Seq<u8>> {
    if is_str_range(b, r) {
        Some(b.subrange(r.0, r.1))
    } else {
        None
    }
}

/// The names of the crates that the (demangled) symbol name `symbol_name`
/// refers to, in order: for each `::` that is not inside a ` as `
/// qualification, the name in front of it (see [`crate_names_of`]).
pub fn crate_names_in_symbol(symbol_name: &str) -> (names: Vec<&str>)
    ensures
        names@.len() == crate_names_of(symbol_name.spec_bytes()).len(),
        forall|i: int|
            0 <= i < names@.len() ==> (#[trigger] names@[i]).spec_bytes() == crate_names_of(
                symbol_name.spec_bytes(),
            )[i],
{
    broadcast use vstd::utf8::encode_utf8_valid_utf8;

    let ghost b = symbol_name.spec_bytes();
    let all_ranges = crate_name_ranges_in_symbol(symbol_name);
    let ranges = dedup_ranges(&all_ranges, Ghost(b.len() as int));
    let ghost kept = int_ranges(ranges@);
    let ghost f = |r: (int, int)| str_at(b, r);
    let mut names: Vec<&str> = Vec::new();
    let mut i: usize = 0;
    let n = ranges.len();
    while i < n
        invariant
            b == symbol_name.spec_bytes(),
            valid_utf8(b),
            n == ranges@.len(),
            kept == int_ranges(ranges@),
            f == (|r: (int, int)| str_at(b, r)),
            i <= n,
            forall|k: int| 0 <= k < ranges@.len() ==> (#[trigger] ranges@[k]).0 <= ranges@[k].1 <= b.len(),
            names@.len() == kept.take(i as int).filter_map(f).len(),
            forall|k: int|
                0 <= k < names@.len() ==> (#[trigger] names@[k]).spec_bytes() == kept.take(
                    i as int,
                ).filter_map(f)[k],
        decreases n - i,
    {
        let (start, end) = ranges[i];
        proof {
            kept.lemma_filter_map_take_succ(f, i as int);
        }
        if symbol_name.is_char_boundary(start) && symbol_name.is_char_boundary(end) {
            let (_, rest) = symbol_name.split_at(start);
            assert(rest.spec_bytes() =~= b.subrange(start as int, b.len() as int));
            proof {
                lemma_boundary_in_suffix(b, start as int, end as int);
            }
            let (name, _) = rest.split_at(end - start);
            assert(name.spec_bytes() =~= b.subrange(start as int, end as int));
            names.push(name);
        }
        i += 1;
    }
    assert(kept.take(n as int) =~= kept);
    names
}

/// A character boundary of a UTF-8 text is one of the part that starts at
/// an earlier boundary.
proof fn lemma_boundary_in_suffix(b: Seq<u8>, start: int, end: int)
    requires
        valid_utf8(b),
        0 <= start <= end <= b.len(),
        is_char_boundary(b, start),
        is_char_boundary(b, end),
    ensures
        valid_utf8(b.subrange(start, b.len() as int)),
        is_char_boundary(b.subrange(start, b.len() as int), end - start),
{
    let rest = b.subrange(start, b.len() as int);
    vstd::utf8::valid_utf8_split(b, start);
    if end == b.len() {
        vstd::utf8::is_char_boundary_start_end_of_seq(rest);
    } else {
        vstd::utf8::is_char_boundary_iff_not_is_continuation_byte(b, end);
        vstd::utf8::is_char_boundary_iff_not_is_continuation_byte(rest, end - start);
    }
}

/// Relocation type: the 64-bit address of the symbol plus the addend.
pub const R_X86_64_64: u32 = 1;
/// Relocation type: the 32-bit distance from the place to the symbol plus the
/// addend.
pub const R_X86_64_PC32: u32 = 2;
/// Relocation type: as `R_X86_64_PC32`, through the procedure linkage table.
pub const R_X86_64_PLT32: u32 = 4;
/// Relocation type: the 32-bit address of the symbol plus the addend.
pub const R_X86_64_32: u32 = 10;
/// Relocation type: the 64-bit distance from the place to the symbol plus the
/// addend.
pub const R_X86_64_PC64: u32 = 24;

/// The number of bytes that a relocation of type `t` writes, if the loader
/// supports the type.
pub open spec fn relocation_width(t: u32) -> Option<int> {
    if t == R_X86_64_32 || t == R_X86_64_PC32 || t == R_X86_64_PLT32 {
        Some(4)
    } else if t == R_X86_64_64 || t == R_X86_64_PC64 {
        Some(8)
    } else {
        None
    }
}

/// The number of bytes that a relocation of type `t` writes (see
/// [`relocation_width`]).
pub fn relocation_size(t: u32) -> (r: Option<usize>)
    ensures
        match relocation_width(t) {
            Some(w) => r == Some(w as usize),
            None => r is None,
        },
{
    if t == R_X86_64_32 || t == R_X86_64_PC32 || t == R_X86_64_PLT32 {
        Some(4)
    } else if t == R_X86_64_64 || t == R_X86_64_PC64 {
        Some(8)
    } else {
        None
    }
}

/// The value that a relocation of type `t` writes at the address `place`,
/// for a symbol at `source` and the addend `addend`, computed modulo 2^64
/// (and kept to its low 32 bits by the 32-bit types).
pub open spec fn relocation_value(t: u32, source: u64, addend: u64, place: u64) -> int {
    let absolute = ((source + addend) % 0x1_0000_0000_0000_0000) as u64;
    let relative = ((absolute - place) % 0x1_0000_0000_0000_0000) as u64;
    if t == R_X86_64_32 {
        (absolute % 0x1_0000_0000) as int
    } else if t == R_X86_64_PC32 || t == R_X86_64_PLT32 {
        (relative % 0x1_0000_0000) as int
    } else if t == R_X86_64_64 {
        absolute as int
    } else {
        relative as int
    }
}

/// Reducing modulo 2^64 first does not change what is left modulo 2^32,
/// also after subtracting `p`.
proof fn lemma_wrap_then_low_bits(x: int, p: int)
    ensures
        ((x % 0x1_0000_0000_0000_0000) % 0x1_0000_0000) == x % 0x1_0000_0000,
        ((x % 0x1_0000_0000_0000_0000 - p) % 0x1_0000_0000_0000_0000) % 0x1_0000_0000 == (x - p)
            % 0x1_0000_0000,
        (x % 0x1_0000_0000_0000_0000 - p) % 0x1_0000_0000_0000_0000 == (x - p) % 0x1_0000_0000_0000_0000,
{
    let m: int = 0x1_0000_0000_0000_0000;
    let n: int = 0x1_0000_0000;
    assert(m == n * n);
    vstd::arithmetic::div_mod::lemma_mod_mod(x, n, n);
    vstd::arithmetic::div_mod::lemma_mod_mod(x % m - p, n, n);
    vstd::arithmetic::div_mod::lemma_sub_mod_noop(x % m, p, n);
    vstd::arithmetic::div_mod::lemma_sub_mod_noop(x, p, n);
    vstd::arithmetic::div_mod::lemma_sub_mod_noop(x % m, p, m);
    vstd::arithmetic::div_mod::lemma_sub_mod_noop(x, p, m);
    vstd::arithmetic::div_mod::lemma_mod_twice(x, m);
}

/// What each relocation type writes, as the x86-64 psABI defines it for a
/// symbol at S, the addend A and the place P being relocated, with addresses
/// taken modulo 2^64: R_X86_64_64 (1) writes the 8 bytes of S + A;
/// R_X86_64_PC32 (2) and R_X86_64_PLT32 (4), the latter for a symbol that the
/// loader resolves directly, write the low 4 bytes of S + A - P;
/// R_X86_64_32 (10) the low 4 bytes of S + A; R_X86_64_PC64 (24) the 8 bytes
/// of S + A - P.
pub proof fn lemma_relocation_values(source: u64, addend: u64, place: u64)
    ensures
        R_X86_64_64 == 1 && R_X86_64_PC32 == 2 && R_X86_64_PLT32 == 4 && R_X86_64_32 == 10
            && R_X86_64_PC64 == 24,
        relocation_width(R_X86_64_64) == Some(8int),
        relocation_width(R_X86_64_PC32) == Some(4int),
        relocation_width(R_X86_64_PLT32) == Some(4int),
        relocation_width(R_X86_64_32) == Some(4int),
        relocation_width(R_X86_64_PC64) == Some(8int),
        relocation_value(R_X86_64_64, source, addend, place) == (source + addend)
            % 0x1_0000_0000_0000_0000,
        relocation_value(R_X86_64_PC32, source, addend, place) == (source + addend - place)
            % 0x1_0000_0000,
        relocation_value(R_X86_64_PLT32, source, addend, place) == (source + addend - place)
            % 0x1_0000_0000,
        relocation_value(R_X86_64_32, source, addend, place) == (source + addend) % 0x1_0000_0000,
        relocation_value(R_X86_64_PC64, source, addend, place) == (source + addend - place)
            % 0x1_0000_0000_0000_0000,
{
    lemma_wrap_then_low_bits(source + addend, place as int);
}

/// Applies the relocation `relocation_entry` to `target_slice`: at
/// `target_offset` it writes, little-endian, the value for a symbol at
/// `source_addr`, where `target_base` is the address of the slice's first
/// byte. Relocation types the loader does not support are refused, and
/// nothing is written then.
pub fn write_relocation(
    relocation_entry: &Rela,
    target_slice: &mut [u8],
    target_offset: usize,
    source_addr: usize,
    target_base: u64,
) -> (r: Result<(), &'static str>)
    requires
        relocation_width((relocation_entry.info % 0x1_0000_0000) as u32) matches Some(w) ==> target_offset + w
            <= old(target_slice)@.len(),
        target_base + target_offset <= u64::MAX,
    ensures
        final(target_slice)@.len() == old(target_slice)@.len(),
        match relocation_width((relocation_entry.info % 0x1_0000_0000) as u32) {
            None => r == Err::<(), &'static str>("unsupported relocation type") && final(target_slice)@
                == old(target_slice)@,
            Some(w) => {
                let t = (relocation_entry.info % 0x1_0000_0000) as u32;
                let v = relocation_value(
                    t,
                    source_addr as u64,
                    relocation_entry.addend,
                    (target_base + target_offset) as u64,
                );
                &&& r is Ok
                &&& (if w == 4 {
                    le_u32(final(target_slice)@, target_offset as int)
                } else {
                    le_u64(final(target_slice)@, target_offset as int)
                }) == v
                &&& forall|i: int|
                    0 <= i < old(target_slice)@.len() && !(target_offset <= i < target_offset + w)
                        ==> final(target_slice)@[i] == old(target_slice)@[i]
            },
        },
{
    let source_addr = source_addr as u64;
    let place = target_base + target_offset as u64;
    let kind = relocation_entry.get_type();
    let addend = relocation_entry.get_addend();
    let absolute = source_addr.wrapping_add(addend);
    let relative = absolute.wrapping_sub(place);
    if kind == R_X86_64_32 {
        let value = absolute as u32;
        assert(value == absolute % 0x1_0000_0000) by (bit_vector)
            requires
                value == absolute as u32,
        ;
        write_u32_le(target_slice, target_offset, value);
    } else if kind == R_X86_64_PC32 || kind == R_X86_64_PLT32 {
        let value = relative as u32;
        assert(value == relative % 0x1_0000_0000) by (bit_vector)
            requires
                value == relative as u32,
        ;
        write_u32_le(target_slice, target_offset, value);
    } else if kind == R_X86_64_64 {
        write_u64_le(target_slice, target_offset, absolute);
    } else if kind == R_X86_64_PC64 {
        write_u64_le(target_slice, target_offset, relative);
    } else {
        return Err("unsupported relocation type");
    }
    Ok(())
}

/// `size` rounded up to a multiple of `align` (`usize::next_multiple_of`).
pub open spec fn round_up(size: int, align: int) -> int {
    if size % align == 0 {
        size
    } else {
        size + (align - size % align)
    }
}

/// Rounding up gives the least multiple of the alignment that is at least
/// the size.
pub proof fn lemma_round_up_least_multiple(size: int, align: int)
    requires
        0 <= size,
        0 < align,
    ensures
        round_up(size, align) % align == 0,
        size <= round_up(size, align) < size + align,
{
    let q = size / align;
    vstd::arithmetic::div_mod::lemma_fundamental_div_mod(size, align);
    vstd::arithmetic::div_mod::lemma_mod_bound(size, align);
    vstd::arithmetic::div_mod::lemma_mod_multiples_basic(q + 1, align);
    vstd::arithmetic::mul::lemma_mul_is_distributive_add_other_way(align, q, 1);
    if size % align != 0 {
        assert(round_up(size, align) == (q + 1) * align);
    }
}

/// The bytes of `.text`.
pub open spec fn text_name() -> Seq<u8> {
    seq![0x2eu8, 0x74u8, 0x65u8, 0x78u8, 0x74u8]
}

/// The section whose size and place stand for section `i` (header `sh`):
/// a zero-sized section other than the first `.text` refers to the next
/// section when that one starts at the same offset. `None` when the
/// lookup of the next section would not run; `Err` when it finds nothing.
pub open spec fn effective_section(input: Seq<u8>, body: HeaderBody, i: int, sh: SectionHeader) -> Option<
    Result<SectionHeader, Seq<char>>,
> {
    if sh.size == 0 && section_name(sh, input, body) != Ok::<Seq<u8>, Seq<char>>(text_name()) {
        if !section_header_defined(input.len() as int, body, i + 1) {
            None
        } else {
            match section_at(input, body, i + 1) {
                None => Some(Err("couldn't get next section for a zero-sized section"@)),
                Some(next) => Some(Ok(if next.offset == sh.offset { next } else { sh })),
            }
        }
    } else {
        Some(Ok(sh))
    }
}

/// The mapping sizes `(executable, read-only, read-write)` after the
/// allocated section `i` (header `sh`, standing in by `sec`) is counted:
/// executable sections extend the executable mapping to their end in the
/// file; initialized thread-local sections, and every other section that is
/// neither writable nor executable, add their size rounded up to their
/// alignment to the read-only mapping; writable ones add it to the
/// read-write mapping. `None` when the count would overflow or an
/// alignment is zero.
pub open spec fn count_section(sh: SectionHeader, sec: SectionHeader, acc: (int, int, int)) -> Option<(int, int, int)> {
    let size = (sec.size as usize) as int;
    let align = (sec.align as usize) as int;
    let offset = (sec.offset as usize) as int;
    if align == 0 || round_up(size, align) > usize::MAX {
        None
    } else {
        let addend = round_up(size, align);
        let next = if sh.flags & SHF_EXECINSTR == SHF_EXECINSTR {
            (if offset + addend > acc.0 { offset + addend } else { acc.0 }, acc.1, acc.2)
        } else if sh.flags & SHF_TLS == SHF_TLS {
            if section_type(sec.type_) == Some(SectionHeaderType::ProgBits) {
                (acc.0, acc.1 + addend, acc.2)
            } else {
                acc
            }
        } else if sh.flags & SHF_WRITE == SHF_WRITE {
            (acc.0, acc.1, acc.2 + addend)
        } else {
            (acc.0, acc.1 + addend, acc.2)
        };
        if offset + addend > usize::MAX || next.1 > usize::MAX || next.2 > usize::MAX {
            None
        } else {
            Some(next)
        }
    }
}

/// Where an allocated section's size goes, by its `sh_flags` bits SHF_WRITE
/// (bit 0), SHF_EXECINSTR (bit 2) and SHF_TLS (bit 10): an executable
/// section extends the executable mapping to its end in the file (its
/// offset plus its rounded size); otherwise a thread-local one adds its
/// rounded size to the read-only mapping when its bytes come from the file
/// (SHT_PROGBITS, 1) and nothing otherwise; otherwise a writable one adds it
/// to the read-write mapping, and any other one to the read-only mapping.
/// The other mappings keep their sizes.
pub proof fn lemma_count_section_targets(sh: SectionHeader, sec: SectionHeader, acc: (int, int, int))
    requires
        count_section(sh, sec, acc) is Some,
    ensures
        ({
            let next = count_section(sh, sec, acc).unwrap();
            let r = round_up((sec.size as usize) as int, (sec.align as usize) as int);
            let end = (sec.offset as usize) as int + r;
            let exec = (sh.flags / 4) % 2 == 1;
            let tls = (sh.flags / 1024) % 2 == 1;
            let write = sh.flags % 2 == 1;
            &&& exec ==> next == (if end > acc.0 {
                end
            } else {
                acc.0
            }, acc.1, acc.2)
            &&& !exec && tls ==> next == (acc.0, acc.1 + if sec.type_ == 1 {
                r
            } else {
                0
            }, acc.2)
            &&& !exec && !tls && write ==> next == (acc.0, acc.1, acc.2 + r)
            &&& !exec && !tls && !write ==> next == (acc.0, acc.1 + r, acc.2)
        }),
{
    let f = sh.flags;
    lemma_section_flag_bits(f);
    lemma_section_type_codes(sec.type_);
}

/// The mapping sizes that the sections from `i` on bring to `acc`, over the
/// sections the iteration reaches (it stops at the first section that lies
/// beyond the end of the file); non-allocated sections count for nothing.
/// `None` when the computation would fail an assertion or overflow.
pub open spec fn mapping_lens_from(input: Seq<u8>, body: HeaderBody, i: int, acc: (int, int, int)) -> Option<
    Result<(int, int, int), Seq<char>>,
>
    decreases body.sh_count - i,
{
    if i < 0 || i >= body.sh_count {
        Some(Ok(acc))
    } else if !section_header_defined(input.len() as int, body, i) {
        None
    } else {
        match section_at(input, body, i) {
            None => Some(Ok(acc)),
            Some(sh) => if sh.flags & SHF_ALLOC == 0 {
                mapping_lens_from(input, body, i + 1, acc)
            } else if !section_name_defined(sh, input, body) {
                None
            } else {
                match effective_section(input, body, i, sh) {
                    None => None,
                    Some(Err(e)) => Some(Err(e)),
                    Some(Ok(sec)) => match count_section(sh, sec, acc) {
                        None => None,
                        Some(next) => mapping_lens_from(input, body, i + 1, next),
                    },
                }
            },
        }
    }
}

/// At least one byte: an empty mapping is made one byte long.
pub open spec fn at_least_one(n: int) -> int {
    if n < 1 {
        1
    } else {
        n
    }
}

/// The section that stands for section `index` (see [`effective_section`]).
fn effective_header(elf_file: &ElfFile, index: u16, section: SectionHeader) -> (r: Result<SectionHeader, &'static str>)
    requires
        section_at(elf_file.input@, elf_file.header.body, index as int) == Some(section),
        section_name_defined(section, elf_file.input@, elf_file.header.body),
        effective_section(elf_file.input@, elf_file.header.body, index as int, section) is Some,
    ensures
        match effective_section(elf_file.input@, elf_file.header.body, index as int, section)->0 {
            Ok(sec) => r == Ok::<SectionHeader, &'static str>(sec),
            Err(e) => r matches Err(m) && m@ == e,
        },
{
    let name = section.get_name(elf_file);
    let text: [u8; 5] = [0x2e, 0x74, 0x65, 0x78, 0x74];
    assert(text@ =~= text_name());
    let is_text = match name {
        Ok(n) => crate::elf::slice_eq(n, text.as_slice()),
        Err(_) => false,
    };
    if section.size() == 0 && !is_text {
        match elf_file.get_section_header(index + 1) {
            Ok(next_sec) => {
                if next_sec.offset() == section.offset() {
                    Ok(next_sec)
                } else {
                    Ok(section)
                }
            },
            Err(_) => Err("couldn't get next section for a zero-sized section"),
        }
    } else {
        Ok(section)
    }
}

/// The mapping sizes after the allocated section `sh` (standing in by `sec`)
/// is counted (see [`count_section`]).
fn count_into(sh: SectionHeader, sec: SectionHeader, acc: (usize, usize, usize)) -> (r: (usize, usize, usize))
    requires
        count_section(sh, sec, (acc.0 as int, acc.1 as int, acc.2 as int)) is Some,
    ensures
        count_section(sh, sec, (acc.0 as int, acc.1 as int, acc.2 as int)) == Some(
            (r.0 as int, r.1 as int, r.2 as int),
        ),
{
    let (mut executable_len, mut read_only_len, mut read_write_len) = acc;
    let section_flags = sh.flags();
    let size = sec.size() as usize;
    let align = sec.align() as usize;
    let offset = sec.offset() as usize;
    let addend = if size % align == 0 {
        size
    } else {
        size + (align - size % align)
    };
    let is_write = section_flags & SHF_WRITE == SHF_WRITE;
    let is_exec = section_flags & SHF_EXECINSTR == SHF_EXECINSTR;
    let is_tls = section_flags & SHF_TLS == SHF_TLS;
    if is_exec {
        let end = offset + addend;
        if end > executable_len {
            executable_len = end;
        }
    } else if is_tls {
        let t = sec.get_type();
        if let Ok(SectionHeaderType::ProgBits) = t {
            read_only_len += addend;
        }
    } else if is_write {
        read_write_len += addend;
    } else {
        read_only_len += addend;
    }
    (executable_len, read_only_len, read_write_len)
}

/// The sizes of the executable, read-only and read-write mappings that the
/// allocated sections of `elf_file` need (see [`mapping_lens_from`]), each
/// at least one byte.
pub fn section_mapping_lens(elf_file: &ElfFile) -> (r: Result<(usize, usize, usize), &'static str>)
    requires
        mapping_lens_from(elf_file.input@, elf_file.header.body, 0, (0, 0, 0)) is Some,
    ensures
        match mapping_lens_from(elf_file.input@, elf_file.header.body, 0, (0, 0, 0))->0 {
            Ok(t) => r == Ok::<(usize, usize, usize), &'static str>(
                (at_least_one(t.0) as usize, at_least_one(t.1) as usize, at_least_one(t.2) as usize),
            ),
            Err(e) => r matches Err(m) && m@ == e,
        },
{
    let ghost input = elf_file.input@;
    let ghost body = elf_file.header.body;
    let mut acc: (usize, usize, usize) = (0, 0, 0);
    let mut iter = elf_file.section_iter();
    loop
        invariant_except_break
            iter.file == elf_file,
            input == elf_file.input@,
            body == elf_file.header.body,
            mapping_lens_from(input, body, iter.next_index as int, (acc.0 as int, acc.1 as int, acc.2 as int)) is Some,
            mapping_lens_from(input, body, 0, (0, 0, 0)) == mapping_lens_from(
                input,
                body,
                iter.next_index as int,
                (acc.0 as int, acc.1 as int, acc.2 as int),
            ),
        ensures
            mapping_lens_from(input, body, 0, (0, 0, 0)) == Some(
                Ok::<(int, int, int), Seq<char>>((acc.0 as int, acc.1 as int, acc.2 as int)),
            ),
        decreases body.sh_count - iter.next_index,
    {
        let index = iter.next_index;
        let section = match iter.next() {
            Some(section) => section,
            None => break,
        };
        if section.flags() & SHF_ALLOC == 0 {
            continue;
        }
        let sec = effective_header(elf_file, index, section)?;
        acc = count_into(section, sec, acc);
    }
    let (executable_len, read_only_len, read_write_len) = acc;
    let executable_len = if executable_len < 1 { 1 } else { executable_len };
    let read_only_len = if read_only_len < 1 { 1 } else { read_only_len };
    let read_write_len = if read_write_len < 1 { 1 } else { read_write_len };
    Ok((executable_len, read_only_len, read_write_len))
}
} // verus!