//! # x86-64 machine code disassembly
//!
//! A decoder for the subset of x86-64 instructions that the loader and the
//! shell need to inspect. The behaviour of [`Disassembler::next`] is stated
//! by [`decode_at`], a pure description of the decoding of one instruction.
use vstd::prelude::*;

use crate::bytes::{le_u32, le_u64};

verus! {

pub struct Disassembler<'a> {
    pub input: &'a [u8],
    pub offset: usize,
}

#[derive(Clone, Copy, Debug, Eq, PartialEq)]
pub enum DisassemblyError {
    InvalidByte,
    PartialInstruction,
    UnsupportedOpcode { opcode: u8 },
}

#[derive(Clone, Copy, Debug, Eq, PartialEq)]
pub enum Instruction {
    ADC { dst: Operand, src: Operand },
    ADD { dst: Operand, src: Operand },
    AND { dst: Operand, src: Operand },
    BSF { dst: Operand, src: Operand },
    BSR { dst: Operand, src: Operand },
    CALL { operand: Operand },
    CLC,
    CLD,
    CLI,
    CMC,
    CMOVCC { cc: ConditionCode, dst: Operand, src: Operand },
    CMP { src_1: Operand, src_2: Operand },
    CPUID,
    HLT,
    IN { dst: Register, port: Operand },
    INC { operand: Operand },
    INT { vector: ImmediateValue },
    INVLPG { src: Operand },
    INT1,
    INT3,
    INTO,
    JCC { cc: ConditionCode, offset: ImmediateValue },
    JMP { operand: Operand },
    LEA { dst: Operand, src: Operand },
    LZCNT { dst: Operand, src: Operand },
    MONITOR,
    MOV { dst: Operand, src: Operand },
    MUL { operand: Operand },
    MWAIT,
    NEG { operand: Operand },
    NOP,
    OR { dst: Operand, src: Operand },
    OUT { src: Register, port: Operand },
    PAUSE,
    PUSH { operand: Operand },
    POP { operand: Operand },
    RDMSR,
    RDMSRLIST,
    RDPID { dst: Register },
    RDPKRU,
    RDPMC,
    RDTSC,
    RDTSCP,
    RDRAND { dst: Register },
    RDSEED { dst: Register },
    RET,
    SAR { dst: Operand, src: Operand },
    SBB { dst: Operand, src: Operand },
    SETCC { cc: ConditionCode, byte: Operand },
    SHL { dst: Operand, src: Operand },
    SHR { dst: Operand, src: Operand },
    STC,
    STD,
    STI,
    SUB { dst: Operand, src: Operand },
    SWAPGS,
    SYSCALL,
    SYSENTER,
    SYSEXIT,
    SYSRET,
    TEST { src_1: Operand, src_2: Operand },
    TZCNT { dst: Operand, src: Operand },
    XCHG { dst: Operand, src: Operand },
    XOR { dst: Operand, src: Operand },
}

#[derive(Clone, Copy, Debug, Eq, Hash, PartialEq)]
pub enum Operand {
    Register(Register),
    ImmediateValue(ImmediateValue),
    Memory { base: Option<Register>, index: Option<Register>, scale: u8, disp: i32 },
}

#[derive(Clone, Copy, Debug, Eq, Hash, PartialEq)]
pub enum Register {
    RAX,
    RCX,
    RDX,
    RBX,
    RSP,
    RBP,
    RSI,
    RDI,
    R8,
    R9,
    R10,
    R11,
    R12,
    R13,
    R14,
    R15,
    RIP,
}

#[derive(Clone, Copy, Debug, Eq, Hash, PartialEq)]
pub enum ImmediateValue {
    I8(i8),
    I16(i16),
    I32(i32),
    I64(i64),
}

/// The REX prefix of an instruction.
#[derive(Clone, Copy, Debug, Eq, Hash, PartialEq)]
pub struct Rex(pub u8);

impl Rex {
    /// REX.W
    pub fn w(&self) -> (b: bool)
        ensures
            b == ((self.0 / 8) % 2 == 1),
    {
        let x = self.0;
        assert((x & 8u8 != 0u8) == ((x / 8) % 2 == 1)) by (bit_vector);
        (x & 0b1000) != 0
    }

    /// REX.R
    pub fn r(&self) -> (b: bool)
        ensures
            b == ((self.0 / 4) % 2 == 1),
    {
        let x = self.0;
        assert((x & 4u8 != 0u8) == ((x / 4) % 2 == 1)) by (bit_vector);
        (x & 0b0100) != 0
    }

    /// REX.X
    pub fn x(&self) -> (b: bool)
        ensures
            b == ((self.0 / 2) % 2 == 1),
    {
        let x = self.0;
        assert((x & 2u8 != 0u8) == ((x / 2) % 2 == 1)) by (bit_vector);
        (x & 0b0010) != 0
    }

    /// REX.B
    pub fn b(&self) -> (b: bool)
        ensures
            b == (self.0 % 2 == 1),
    {
        let x = self.0;
        assert((x & 1u8 != 0u8) == (x % 2 == 1)) by (bit_vector);
        (x & 0b0001) != 0
    }
}

/// REX.R of an optional prefix (clear when there is no prefix).
pub open spec fn rex_r(rex: Option<Rex>) -> bool {
    match rex {
        Some(r) => (r.0 / 4) % 2 == 1,
        None => false,
    }
}

/// REX.X of an optional prefix (clear when there is no prefix).
pub open spec fn rex_x(rex: Option<Rex>) -> bool {
    match rex {
        Some(r) => (r.0 / 2) % 2 == 1,
        None => false,
    }
}

/// REX.B of an optional prefix (clear when there is no prefix).
pub open spec fn rex_b(rex: Option<Rex>) -> bool {
    match rex {
        Some(r) => r.0 % 2 == 1,
        None => false,
    }
}

/// The extension bit chosen for a register field: REX.R when `use_rex_r`,
/// REX.B otherwise.
pub open spec fn rex_ext(rex: Option<Rex>, use_rex_r: bool) -> bool {
    if use_rex_r {
        rex_r(rex)
    } else {
        rex_b(rex)
    }
}

/// The ModR/M byte of an instruction.
#[derive(Clone, Copy, Debug, Eq, Hash, PartialEq)]
pub struct ModRm {
    /// Addressing mode (the `mod` field).
    pub md: u8,
    /// Register or opcode extension (the `reg` field).
    pub reg: u8,
    /// Register or memory addressing (the `rm` field).
    pub rm: u8,
}

/// The fields of a ModR/M byte: bits 7-6, 5-3 and 2-0.
pub open spec fn modrm_of(byte: u8) -> ModRm {
    ModRm { md: byte / 64, reg: (byte / 8) % 8, rm: byte % 8 }
}

/// Size in bytes of the displacement that follows a ModR/M byte (without SIB).
pub open spec fn modrm_disp_size(m: ModRm) -> u8 {
    if m.md == 0 && m.rm == 5 {
        4
    } else if m.md == 1 {
        1
    } else if m.md == 2 {
        4
    } else {
        0
    }
}

impl ModRm {
    pub fn new(byte: u8) -> (m: Self)
        ensures
            m == modrm_of(byte),
    {
        assert((byte >> 6u8) & 3u8 == byte / 64) by (bit_vector);
        assert((byte >> 3u8) & 7u8 == (byte / 8) % 8) by (bit_vector);
        assert(byte & 7u8 == byte % 8) by (bit_vector);
        Self { md: (byte >> 6) & 0b11, reg: (byte >> 3) & 0b111, rm: byte & 0b111 }
    }

    pub fn is_memory(&self) -> (b: bool)
        ensures
            b == (self.md != 3),
    {
        self.md != 3
    }

    pub fn has_sib(&self) -> (b: bool)
        ensures
            b == (self.md != 3 && self.rm == 4),
    {
        self.is_memory() && self.rm == 4
    }

    pub fn is_rip_relative(&self) -> (b: bool)
        ensures
            b == (self.md == 0 && self.rm == 5),
    {
        self.md == 0 && self.rm == 5
    }

    pub fn disp_size(&self) -> (n: u8)
        ensures
            n == modrm_disp_size(*self),
    {
        match self.md {
            0 if self.rm == 5 => 4,
            1 => 1,
            2 => 4,
            _ => 0,
        }
    }

    /// The `rm` field as a register, extended by `rex`.
    pub fn rm_register(&self, rex: bool) -> (r: Register)
        requires
            self.rm < 8,
        ensures
            Some(r) == register_for(self.rm, rex),
    {
        parse_register(self.rm, rex).unwrap()
    }

    /// Parse the `reg` field as an `r64` operand.
    pub fn r64_reg_operand(&self, rex: Option<Rex>, use_rex_r: bool) -> (op: Operand)
        requires
            self.reg < 8,
        ensures
            op == reg_operand(*self, rex, use_rex_r),
    {
        let ext = match rex {
            Some(rex) => {
                if use_rex_r {
                    rex.r()
                } else {
                    rex.b()
                }
            },
            None => false,
        };
        Operand::Register(parse_register(self.reg, ext).unwrap())
    }
}

/// The `reg` field of a ModR/M byte as a register operand.
pub open spec fn reg_operand(m: ModRm, rex: Option<Rex>, use_rex_r: bool) -> Operand {
    Operand::Register(register_for(m.reg, rex_ext(rex, use_rex_r))->0)
}

/// The SIB byte of an instruction.
#[derive(Clone, Copy, Debug, Eq, Hash, PartialEq)]
pub struct Sib {
    /// Scale factor (1, 2, 4, 8).
    pub scale: u8,
    /// Index register.
    pub index: u8,
    /// Base register.
    pub base: u8,
}

/// The fields of a SIB byte: bits 7-6, 5-3 and 2-0.
pub open spec fn sib_of(byte: u8) -> Sib {
    Sib { scale: byte / 64, index: (byte / 8) % 8, base: byte % 8 }
}

/// The factor by which a SIB byte scales its index register.
pub open spec fn sib_scale_factor(s: Sib) -> u8 {
    if s.scale == 1 {
        2
    } else if s.scale == 2 {
        4
    } else if s.scale == 3 {
        8
    } else {
        1
    }
}

/// Size in bytes of the displacement that follows a SIB byte.
pub open spec fn sib_disp_size(s: Sib, m: ModRm) -> u8 {
    if m.md == 0 && s.base == 5 {
        4
    } else if m.md == 1 {
        1
    } else if m.md == 2 {
        4
    } else {
        0
    }
}

/// The index register named by a SIB byte (index 4 means "none").
pub open spec fn sib_index(s: Sib, rex_x: bool) -> Option<Register> {
    if s.index == 4 {
        None
    } else {
        register_for(s.index, rex_x)
    }
}

/// The base register named by a SIB byte (base 5 with `mod` 0 means "none").
pub open spec fn sib_base(s: Sib, md: u8, rex_b: bool) -> Option<Register> {
    if s.base == 5 && md == 0 {
        None
    } else {
        register_for(s.base, rex_b)
    }
}

impl Sib {
    pub fn new(byte: u8) -> (s: Self)
        ensures
            s == sib_of(byte),
    {
        assert((byte >> 6u8) & 3u8 == byte / 64) by (bit_vector);
        assert((byte >> 3u8) & 7u8 == (byte / 8) % 8) by (bit_vector);
        assert(byte & 7u8 == byte % 8) by (bit_vector);
        Self { scale: (byte >> 6) & 0b11, index: (byte >> 3) & 0b111, base: byte & 0b111 }
    }

    pub fn scale_factor(&self) -> (f: u8)
        ensures
            f == sib_scale_factor(*self),
    {
        match self.scale {
            1 => 2,
            2 => 4,
            3 => 8,
            _ => 1,
        }
    }

    pub fn disp_size(&self, modrm: &ModRm) -> (n: u8)
        ensures
            n == sib_disp_size(*self, *modrm),
    {
        match modrm.md {
            0 if self.base == 5 => 4,
            1 => 1,
            2 => 4,
            _ => 0,
        }
    }

    pub fn index_register(&self, rex_x: bool) -> (r: Option<Register>)
        ensures
            r == sib_index(*self, rex_x),
    {
        if self.index == 4 {
            None
        } else {
            parse_register(self.index, rex_x)
        }
    }

    pub fn base_register(&self, md: u8, rex_b: bool) -> (r: Option<Register>)
        ensures
            r == sib_base(*self, md, rex_b),
    {
        if self.base == 5 && md == 0 {
            None
        } else {
            parse_register(self.base, rex_b)
        }
    }
}

#[derive(Clone, Copy, Debug, Eq, Hash, PartialEq)]
pub enum ConditionCode {
    /// Overflow (OF = 1).
    O,
    /// No overflow (OF = 0).
    NO,
    /// Below, Carry (CF = 1).
    B,
    /// Not below, No carry (CF = 0).
    NB,
    /// Equal, Zero (ZF = 1).
    Z,
    /// Not equal, Not zero (ZF = 0).
    NZ,
    /// Below or equal (CF = 1 or ZF = 1).
    BE,
    /// Above (CF = 0 and ZF = 0).
    A,
    /// Sign (SF = 1).
    S,
    /// No sign (SF = 0).
    NS,
    /// Parity (PF = 1).
    P,
    /// No parity (PF = 0).
    NP,
    /// Less (SF != OF).
    L,
    /// Greater or equal (SF = OF).
    GE,
    /// Less or equal (ZF = 1 or SF != OF).
    LE,
    /// Greater (ZF = 0 and SF = OF).
    G,
}

/// The condition code with the given 4-bit encoding.
pub open spec fn condition_code_for(n: u8) -> Option<ConditionCode> {
    if n == 0x0 {
        Some(ConditionCode::O)
    } else if n == 0x1 {
        Some(ConditionCode::NO)
    } else if n == 0x2 {
        Some(ConditionCode::B)
    } else if n == 0x3 {
        Some(ConditionCode::NB)
    } else if n == 0x4 {
        Some(ConditionCode::Z)
    } else if n == 0x5 {
        Some(ConditionCode::NZ)
    } else if n == 0x6 {
        Some(ConditionCode::BE)
    } else if n == 0x7 {
        Some(ConditionCode::A)
    } else if n == 0x8 {
        Some(ConditionCode::S)
    } else if n == 0x9 {
        Some(ConditionCode::NS)
    } else if n == 0xA {
        Some(ConditionCode::P)
    } else if n == 0xB {
        Some(ConditionCode::NP)
    } else if n == 0xC {
        Some(ConditionCode::L)
    } else if n == 0xD {
        Some(ConditionCode::GE)
    } else if n == 0xE {
        Some(ConditionCode::LE)
    } else if n == 0xF {
        Some(ConditionCode::G)
    } else {
        None
    }
}

/// The condition codes in the order of their 4-bit encoding in the x86
/// opcode map (the low nibble of `Jcc` and `SETcc`/`CMOVcc` opcodes); an
/// odd code is the negation of the even code before it.
pub proof fn lemma_condition_code_encoding(n: u8)
    ensures
        condition_code_for(n) == Some(ConditionCode::O) <==> n == 0,
        condition_code_for(n) == Some(ConditionCode::NO) <==> n == 1,
        condition_code_for(n) == Some(ConditionCode::B) <==> n == 2,
        condition_code_for(n) == Some(ConditionCode::NB) <==> n == 3,
        condition_code_for(n) == Some(ConditionCode::Z) <==> n == 4,
        condition_code_for(n) == Some(ConditionCode::NZ) <==> n == 5,
        condition_code_for(n) == Some(ConditionCode::BE) <==> n == 6,
        condition_code_for(n) == Some(ConditionCode::A) <==> n == 7,
        condition_code_for(n) == Some(ConditionCode::S) <==> n == 8,
        condition_code_for(n) == Some(ConditionCode::NS) <==> n == 9,
        condition_code_for(n) == Some(ConditionCode::P) <==> n == 10,
        condition_code_for(n) == Some(ConditionCode::NP) <==> n == 11,
        condition_code_for(n) == Some(ConditionCode::L) <==> n == 12,
        condition_code_for(n) == Some(ConditionCode::GE) <==> n == 13,
        condition_code_for(n) == Some(ConditionCode::LE) <==> n == 14,
        condition_code_for(n) == Some(ConditionCode::G) <==> n == 15,
        condition_code_for(n) is None <==> n >= 16,
{
}

impl ConditionCode {
    pub fn new(byte: u8) -> (cc: Option<Self>)
        ensures
            cc == condition_code_for(byte),
            cc is Some <==> byte < 16,
    {
        match byte {
            0x0 => Some(Self::O),
            0x1 => Some(Self::NO),
            0x2 => Some(Self::B),
            0x3 => Some(Self::NB),
            0x4 => Some(Self::Z),
            0x5 => Some(Self::NZ),
            0x6 => Some(Self::BE),
            0x7 => Some(Self::A),
            0x8 => Some(Self::S),
            0x9 => Some(Self::NS),
            0xA => Some(Self::P),
            0xB => Some(Self::NP),
            0xC => Some(Self::L),
            0xD => Some(Self::GE),
            0xE => Some(Self::LE),
            0xF => Some(Self::G),
            _ => None,
        }
    }
}

/// Whether a byte is a REX prefix (`0x40..=0x4F`).
pub open spec fn is_rex(byte: u8) -> bool {
    0x40 <= byte <= 0x4F
}

fn is_rex_prefix(byte: u8) -> (b: bool)
    ensures
        b == is_rex(byte),
{
    assert((byte & 0xF0u8 == 0x40u8) == (0x40u8 <= byte && byte <= 0x4Fu8)) by (bit_vector);
    byte & 0xF0 == 0x40
}

/// The general purpose register with number `n` (0 to 15).
pub open spec fn register_number(n: int) -> Register {
    if n == 0 {
        Register::RAX
    } else if n == 1 {
        Register::RCX
    } else if n == 2 {
        Register::RDX
    } else if n == 3 {
        Register::RBX
    } else if n == 4 {
        Register::RSP
    } else if n == 5 {
        Register::RBP
    } else if n == 6 {
        Register::RSI
    } else if n == 7 {
        Register::RDI
    } else if n == 8 {
        Register::R8
    } else if n == 9 {
        Register::R9
    } else if n == 10 {
        Register::R10
    } else if n == 11 {
        Register::R11
    } else if n == 12 {
        Register::R12
    } else if n == 13 {
        Register::R13
    } else if n == 14 {
        Register::R14
    } else {
        Register::R15
    }
}

/// A 3-bit register field extended by a REX bit: registers 0-7, or 8-15
/// when the bit is set; no register for a field of 8 or more.
pub open spec fn register_for(index: u8, rex: bool) -> Option<Register> {
    if index < 8 {
        Some(register_number(index + if rex { 8int } else { 0int }))
    } else {
        None
    }
}

fn parse_register(index: u8, rex: bool) -> (r: Option<Register>)
    ensures
        r == register_for(index, rex),
{
    match (index, rex) {
        (0, false) => Some(Register::RAX),
        (1, false) => Some(Register::RCX),
        (2, false) => Some(Register::RDX),
        (3, false) => Some(Register::RBX),
        (4, false) => Some(Register::RSP),
        (5, false) => Some(Register::RBP),
        (6, false) => Some(Register::RSI),
        (7, false) => Some(Register::RDI),
        (0, true) => Some(Register::R8),
        (1, true) => Some(Register::R9),
        (2, true) => Some(Register::R10),
        (3, true) => Some(Register::R11),
        (4, true) => Some(Register::R12),
        (5, true) => Some(Register::R13),
        (6, true) => Some(Register::R14),
        (7, true) => Some(Register::R15),
        _ => None,
    }
}

} // verus!

verus! {

// ---------------------------------------------------------------------------
// The decoding of one instruction, as a function of the input bytes and the
// position where decoding starts. Each reader gives back what it read (or
// the error that stopped it) together with the position after the read.
// ---------------------------------------------------------------------------

/// Where a read that runs past the end of `input` leaves the position: at the
/// end of the input, or where it was if it was already beyond the end.
pub open spec fn stop_at_end(input: Seq<u8>, pos: int) -> int {
    if pos < input.len() {
        input.len() as int
    } else {
        pos
    }
}

/// Read one byte.
pub open spec fn read_u8(input: Seq<u8>, pos: int) -> (Result<u8, DisassemblyError>, int) {
    if 0 <= pos < input.len() {
        (Ok(input[pos]), pos + 1)
    } else {
        (Err(DisassemblyError::PartialInstruction), pos)
    }
}

/// Read one byte as a signed integer.
pub open spec fn read_i8(input: Seq<u8>, pos: int) -> (Result<i8, DisassemblyError>, int) {
    if 0 <= pos < input.len() {
        (Ok(input[pos] as i8), pos + 1)
    } else {
        (Err(DisassemblyError::PartialInstruction), pos)
    }
}

/// Read a little-endian, two's complement, 32-bit integer.
pub open spec fn read_i32(input: Seq<u8>, pos: int) -> (Result<i32, DisassemblyError>, int) {
    if 0 <= pos && pos + 4 <= input.len() {
        (Ok(le_u32(input, pos) as i32), pos + 4)
    } else {
        (Err(DisassemblyError::PartialInstruction), stop_at_end(input, pos))
    }
}

/// Read a little-endian, two's complement, 64-bit integer.
pub open spec fn read_i64(input: Seq<u8>, pos: int) -> (Result<i64, DisassemblyError>, int) {
    if 0 <= pos && pos + 8 <= input.len() {
        (Ok(le_u64(input, pos) as i64), pos + 8)
    } else {
        (Err(DisassemblyError::PartialInstruction), stop_at_end(input, pos))
    }
}

/// Read a displacement of `size` bytes (1 or 4; any other size reads nothing
/// and gives 0), sign-extended to 32 bits.
pub open spec fn read_disp(input: Seq<u8>, pos: int, size: u8) -> (Result<i32, DisassemblyError>, int) {
    if size == 1 {
        match read_i8(input, pos) {
            (Ok(b), p) => (Ok(b as i32), p),
            (Err(e), p) => (Err(e), p),
        }
    } else if size == 4 {
        read_i32(input, pos)
    } else {
        (Ok(0i32), pos)
    }
}

/// Read the `r/m` operand that a ModR/M byte describes: a register, or a
/// memory reference with its optional SIB byte and displacement.
pub open spec fn read_rm64(input: Seq<u8>, pos: int, m: ModRm, rex: Option<Rex>, use_rex_r: bool) -> (
    Result<Operand, DisassemblyError>,
    int,
) {
    if m.md != 3 {
        if m.rm == 4 {
            match read_u8(input, pos) {
                (Err(e), p) => (Err(e), p),
                (Ok(byte), p) => {
                    let sib = sib_of(byte);
                    match read_disp(input, p, sib_disp_size(sib, m)) {
                        (Err(e), q) => (Err(e), q),
                        (Ok(disp), q) => (
                            Ok(
                                Operand::Memory {
                                    base: sib_base(sib, m.md, rex_b(rex)),
                                    index: sib_index(sib, rex_x(rex)),
                                    scale: sib_scale_factor(sib),
                                    disp,
                                },
                            ),
                            q,
                        ),
                    }
                },
            }
        } else {
            match read_disp(input, pos, modrm_disp_size(m)) {
                (Err(e), q) => (Err(e), q),
                (Ok(disp), q) => (
                    Ok(
                        Operand::Memory {
                            base: if m.md == 0 && m.rm == 5 {
                                Some(Register::RIP)
                            } else {
                                register_for(m.rm, rex_ext(rex, use_rex_r))
                            },
                            index: None,
                            scale: 1,
                            disp,
                        },
                    ),
                    q,
                ),
            }
        }
    } else {
        (Ok(Operand::Register(register_for(m.rm, rex_ext(rex, use_rex_r))->0)), pos)
    }
}

/// Read a ModR/M byte and the operands it names: the `r/m` operand (extended
/// by REX.R when `rm_use_rex_r`, else REX.B) and the `reg` operand (likewise
/// with `reg_use_rex_r`).
pub open spec fn read_modrm_operands(
    input: Seq<u8>,
    pos: int,
    rex: Option<Rex>,
    rm_use_rex_r: bool,
    reg_use_rex_r: bool,
) -> (Result<(Operand, Operand), DisassemblyError>, int) {
    match read_u8(input, pos) {
        (Err(e), p) => (Err(e), p),
        (Ok(byte), p) => {
            let m = modrm_of(byte);
            match read_rm64(input, p, m, rex, rm_use_rex_r) {
                (Err(e), q) => (Err(e), q),
                (Ok(rm), q) => (Ok((rm, reg_operand(m, rex, reg_use_rex_r))), q),
            }
        },
    }
}

} // verus!

verus! {

impl<'a> Disassembler<'a> {
    pub fn new(input: &'a [u8]) -> (d: Self)
        ensures
            d.input == input,
            d.offset == 0,
    {
        Self { input, offset: 0 }
    }

    fn advance(&mut self) -> (r: Result<u8, DisassemblyError>)
        ensures
            final(self).input == old(self).input,
            (r, final(self).offset as int) == read_u8(old(self).input@, old(self).offset as int),
    {
        if self.offset >= self.input.len() {
            return Err(DisassemblyError::PartialInstruction);
        }
        let byte = self.input[self.offset];
        self.offset += 1;
        Ok(byte)
    }

    fn advance_i8(&mut self) -> (r: Result<i8, DisassemblyError>)
        ensures
            final(self).input == old(self).input,
            (r, final(self).offset as int) == read_i8(old(self).input@, old(self).offset as int),
    {
        let b = self.advance()?;
        Ok(b as i8)
    }

    fn advance_i32(&mut self) -> (r: Result<i32, DisassemblyError>)
        ensures
            final(self).input == old(self).input,
            (r, final(self).offset as int) == read_i32(old(self).input@, old(self).offset as int),
    {
        let b0 = self.advance()?;
        let b1 = self.advance()?;
        let b2 = self.advance()?;
        let b3 = self.advance()?;
        let v: u32 = b0 as u32 + (b1 as u32) * 0x100 + (b2 as u32) * 0x1_0000 + (b3 as u32)
            * 0x100_0000;
        Ok(v as i32)
    }

    fn advance_i64(&mut self) -> (r: Result<i64, DisassemblyError>)
        ensures
            final(self).input == old(self).input,
            (r, final(self).offset as int) == read_i64(old(self).input@, old(self).offset as int),
    {
        let b0 = self.advance()?;
        let b1 = self.advance()?;
        let b2 = self.advance()?;
        let b3 = self.advance()?;
        let b4 = self.advance()?;
        let b5 = self.advance()?;
        let b6 = self.advance()?;
        let b7 = self.advance()?;
        let lo: u64 = b0 as u64 + (b1 as u64) * 0x100 + (b2 as u64) * 0x1_0000 + (b3 as u64)
            * 0x100_0000;
        let hi: u64 = b4 as u64 + (b5 as u64) * 0x100 + (b6 as u64) * 0x1_0000 + (b7 as u64)
            * 0x100_0000;
        let v: u64 = lo + hi * 0x1_0000_0000;
        Ok(v as i64)
    }

    fn advance_disp(&mut self, size: u8) -> (r: Result<i32, DisassemblyError>)
        ensures
            final(self).input == old(self).input,
            (r, final(self).offset as int) == read_disp(
                old(self).input@,
                old(self).offset as int,
                size,
            ),
    {
        match size {
            1 => {
                let b = self.advance_i8()?;
                Ok(b as i32)
            },
            4 => self.advance_i32(),
            _ => Ok(0),
        }
    }

    /// Parse the `rm` field of the ModR/M byte as an `r/m64` operand.
    fn parse_rm64_operand(&mut self, modrm: ModRm, rex: Option<Rex>, use_rex_r: bool) -> (r: Result<
        Operand,
        DisassemblyError,
    >)
        requires
            modrm.rm < 8,
        ensures
            final(self).input == old(self).input,
            (r, final(self).offset as int) == read_rm64(
                old(self).input@,
                old(self).offset as int,
                modrm,
                rex,
                use_rex_r,
            ),
    {
        let rex_b = match rex {
            Some(rex) => rex.b(),
            None => false,
        };
        let rex_x = match rex {
            Some(rex) => rex.x(),
            None => false,
        };
        let ext = match rex {
            Some(rex) => {
                if use_rex_r {
                    rex.r()
                } else {
                    rex.b()
                }
            },
            None => false,
        };

        if modrm.is_memory() {
            if modrm.has_sib() {
                let sib = Sib::new(self.advance()?);
                let disp = self.advance_disp(sib.disp_size(&modrm))?;
                Ok(
                    Operand::Memory {
                        base: sib.base_register(modrm.md, rex_b),
                        index: sib.index_register(rex_x),
                        scale: sib.scale_factor(),
                        disp,
                    },
                )
            } else {
                let disp = self.advance_disp(modrm.disp_size())?;
                Ok(
                    Operand::Memory {
                        base: if modrm.is_rip_relative() {
                            Some(Register::RIP)
                        } else {
                            parse_register(modrm.rm, ext)
                        },
                        index: None,
                        scale: 1,
                        disp,
                    },
                )
            }
        } else {
            Ok(Operand::Register(modrm.rm_register(ext)))
        }
    }

    /// Read a ModR/M byte and give back its `r/m` and `reg` operands.
    fn parse_modrm_operands(&mut self, rex: Option<Rex>, rm_use_rex_r: bool, reg_use_rex_r: bool) -> (r:
        Result<(Operand, Operand), DisassemblyError>)
        ensures
            final(self).input == old(self).input,
            (r, final(self).offset as int) == read_modrm_operands(
                old(self).input@,
                old(self).offset as int,
                rex,
                rm_use_rex_r,
                reg_use_rex_r,
            ),
    {
        let modrm = ModRm::new(self.advance()?);
        let rm = self.parse_rm64_operand(modrm, rex, rm_use_rex_r)?;
        Ok((rm, modrm.r64_reg_operand(rex, reg_use_rex_r)))
    }
}

} // verus!

verus! {

/// Turn what a reader gave back into an instruction, keeping its error and
/// its final position.
pub open spec fn map_read<A>(r: (Result<A, DisassemblyError>, int), f: spec_fn(A) -> Instruction) -> (
    Result<Instruction, DisassemblyError>,
    int,
) {
    match r.0 {
        Ok(a) => (Ok(f(a)), r.1),
        Err(e) => (Err(e), r.1),
    }
}

/// Read an immediate value: 32 bits when `wide`, else 8 bits.
pub open spec fn read_imm(input: Seq<u8>, pos: int, wide: bool) -> (
    Result<ImmediateValue, DisassemblyError>,
    int,
) {
    if wide {
        match read_i32(input, pos) {
            (Ok(v), p) => (Ok(ImmediateValue::I32(v)), p),
            (Err(e), p) => (Err(e), p),
        }
    } else {
        match read_i8(input, pos) {
            (Ok(v), p) => (Ok(ImmediateValue::I8(v)), p),
            (Err(e), p) => (Err(e), p),
        }
    }
}

/// The one-byte opcodes that take a ModR/M byte naming two operands.
pub open spec fn is_two_operand_opcode(op: u8) -> bool {
    op == 0x01 || op == 0x09 || op == 0x0B || op == 0x21 || op == 0x23 || op == 0x29 || op == 0x31
        || op == 0x39 || (0x84 <= op <= 0x8B) || op == 0x8D
}

/// The instruction of a two-operand opcode, given its `r/m` and `reg`
/// operands.
pub open spec fn two_operand_instruction(op: u8, rm: Operand, reg: Operand) -> Instruction {
    if op == 0x01 {
        Instruction::ADD { dst: rm, src: reg }
    } else if op == 0x09 {
        Instruction::OR { dst: rm, src: reg }
    } else if op == 0x0B {
        Instruction::OR { dst: reg, src: rm }
    } else if op == 0x21 {
        Instruction::AND { dst: rm, src: reg }
    } else if op == 0x23 {
        Instruction::AND { dst: reg, src: rm }
    } else if op == 0x29 {
        Instruction::SUB { dst: rm, src: reg }
    } else if op == 0x31 {
        Instruction::XOR { dst: rm, src: reg }
    } else if op == 0x39 {
        Instruction::CMP { src_1: rm, src_2: reg }
    } else if op == 0x84 || op == 0x85 {
        Instruction::TEST { src_1: rm, src_2: reg }
    } else if op == 0x86 || op == 0x87 {
        Instruction::XCHG { dst: rm, src: reg }
    } else if op == 0x88 || op == 0x89 {
        Instruction::MOV { dst: rm, src: reg }
    } else if op == 0x8A || op == 0x8B {
        Instruction::MOV { dst: reg, src: rm }
    } else {
        Instruction::LEA { dst: reg, src: rm }
    }
}

/// Immediate group 1 (opcodes 0x80, 0x81, 0x83), selected by the `reg` field.
pub open spec fn group1_instruction(reg: u8, dst: Operand, src: Operand) -> Result<
    Instruction,
    DisassemblyError,
> {
    if reg == 0 {
        Ok(Instruction::ADD { dst, src })
    } else if reg == 1 {
        Ok(Instruction::OR { dst, src })
    } else if reg == 2 {
        Ok(Instruction::ADC { dst, src })
    } else if reg == 3 {
        Ok(Instruction::SBB { dst, src })
    } else if reg == 4 {
        Ok(Instruction::AND { dst, src })
    } else if reg == 5 {
        Ok(Instruction::SUB { dst, src })
    } else if reg == 6 {
        Ok(Instruction::XOR { dst, src })
    } else if reg == 7 {
        Ok(Instruction::CMP { src_1: dst, src_2: src })
    } else {
        Err(DisassemblyError::InvalidByte)
    }
}

/// Shift group 2 (opcodes 0xC0, 0xC1), for the `reg` fields 4, 5 and 7.
pub open spec fn shift_instruction(reg: u8, dst: Operand, src: Operand) -> Instruction {
    if reg == 4 {
        Instruction::SHL { dst, src }
    } else if reg == 5 {
        Instruction::SHR { dst, src }
    } else {
        Instruction::SAR { dst, src }
    }
}

/// Decoding after the 0x0F escape byte. `None` stands for the encodings
/// that this decoder does not handle (it gives up on them).
pub open spec fn decode_0f(input: Seq<u8>, pos: int, rex: Option<Rex>, f2: bool, f3: bool) -> Option<
    (Result<Instruction, DisassemblyError>, int),
> {
    match read_u8(input, pos) {
        (Err(e), p) => Some((Err(e), p)),
        (Ok(op), p) => {
            if op == 0x01 {
                match read_u8(input, p) {
                    (Err(e), q) => Some((Err(e), q)),
                    (Ok(b), q) => {
                        if b == 0xC6 && f2 {
                            Some((Ok(Instruction::RDMSRLIST), q))
                        } else if b == 0xC8 {
                            Some((Ok(Instruction::MONITOR), q))
                        } else if b == 0xC9 {
                            Some((Ok(Instruction::MWAIT), q))
                        } else if b == 0xEE {
                            Some((Ok(Instruction::RDPKRU), q))
                        } else if b == 0xF8 {
                            Some((Ok(Instruction::SWAPGS), q))
                        } else if b == 0xF9 {
                            Some((Ok(Instruction::RDTSCP), q))
                        } else if modrm_of(b).md != 3 {
                            None
                        } else {
                            Some((Err(DisassemblyError::InvalidByte), q))
                        }
                    },
                }
            } else if op == 0x05 {
                Some((Ok(Instruction::SYSCALL), p))
            } else if op == 0x07 {
                Some((Ok(Instruction::SYSRET), p))
            } else if op == 0x31 {
                Some((Ok(Instruction::RDTSC), p))
            } else if op == 0x32 {
                Some((Ok(Instruction::RDMSR), p))
            } else if op == 0x33 {
                Some((Ok(Instruction::RDPMC), p))
            } else if op == 0x34 {
                Some((Ok(Instruction::SYSENTER), p))
            } else if op == 0x35 {
                Some((Ok(Instruction::SYSEXIT), p))
            } else if 0x40 <= op <= 0x4F {
                let cc = condition_code_for(op % 16)->0;
                Some(
                    map_read(
                        read_modrm_operands(input, p, rex, false, false),
                        |ops: (Operand, Operand)| Instruction::CMOVCC { cc, dst: ops.1, src: ops.0 },
                    ),
                )
            } else if 0x90 <= op <= 0x9F {
                let cc = condition_code_for(op % 16)->0;
                Some(
                    map_read(
                        read_modrm_operands(input, p, rex, false, false),
                        |ops: (Operand, Operand)| Instruction::SETCC { cc, byte: ops.0 },
                    ),
                )
            } else if op == 0xA2 {
                Some((Ok(Instruction::CPUID), p))
            } else if op == 0xBC || op == 0xBD {
                Some(
                    map_read(
                        read_modrm_operands(input, p, rex, false, false),
                        |ops: (Operand, Operand)|
                            if op == 0xBC && f3 {
                                Instruction::TZCNT { dst: ops.1, src: ops.0 }
                            } else if op == 0xBC {
                                Instruction::BSF { dst: ops.1, src: ops.0 }
                            } else if f3 {
                                Instruction::LZCNT { dst: ops.1, src: ops.0 }
                            } else {
                                Instruction::BSR { dst: ops.1, src: ops.0 }
                            },
                    ),
                )
            } else if op == 0xC7 {
                match read_u8(input, p) {
                    (Err(e), q) => Some((Err(e), q)),
                    (Ok(b), q) => {
                        let m = modrm_of(b);
                        if m.reg == 6 {
                            Some((Ok(Instruction::RDRAND { dst: register_for(m.rm, rex_b(rex))->0 }), q))
                        } else if m.reg == 7 && f3 {
                            Some((Ok(Instruction::RDPID { dst: register_for(m.rm, false)->0 }), q))
                        } else if m.reg == 7 {
                            Some((Ok(Instruction::RDSEED { dst: register_for(m.rm, rex_b(rex))->0 }), q))
                        } else {
                            Some((Err(DisassemblyError::InvalidByte), q))
                        }
                    },
                }
            } else {
                Some((Err(DisassemblyError::UnsupportedOpcode { opcode: op }), p))
            }
        },
    }
}

} // verus!

verus! {

/// Decoding of a one-byte opcode whose prefixes have been read. `None`
/// stands for the encodings that this decoder does not handle.
pub open spec fn decode_opcode(input: Seq<u8>, p: int, op: u8, rex: Option<Rex>, f2: bool, f3: bool) -> Option<
    (Result<Instruction, DisassemblyError>, int),
> {
    if is_two_operand_opcode(op) {
        Some(
            map_read(
                read_modrm_operands(input, p, rex, op != 0x8D, true),
                |ops: (Operand, Operand)| two_operand_instruction(op, ops.0, ops.1),
            ),
        )
    } else if op == 0x0F {
        decode_0f(input, p, rex, f2, f3)
    } else if op == 0x1C {
        Some(
            map_read(
                read_i8(input, p),
                |v: i8|
                    Instruction::SBB {
                        dst: Operand::Register(Register::RAX),
                        src: Operand::ImmediateValue(ImmediateValue::I8(v)),
                    },
            ),
        )
    } else if 0x40 <= op <= 0x4F || op == 0x60 || op == 0x61 || op == 0x82 || op == 0xCE || op
        == 0xEA {
        Some((Err(DisassemblyError::InvalidByte), p))
    } else if 0x50 <= op <= 0x57 {
        Some(
            (
                Ok(
                    Instruction::PUSH {
                        operand: Operand::Register(register_for(op % 8, rex_r(rex))->0),
                    },
                ),
                p,
            ),
        )
    } else if 0x58 <= op <= 0x5F {
        Some(
            (
                Ok(
                    Instruction::POP {
                        operand: Operand::Register(register_for(op % 8, rex_r(rex))->0),
                    },
                ),
                p,
            ),
        )
    } else if op == 0x68 || op == 0x6A {
        Some(
            map_read(
                read_imm(input, p, op == 0x68),
                |v: ImmediateValue| Instruction::PUSH { operand: Operand::ImmediateValue(v) },
            ),
        )
    } else if 0x70 <= op <= 0x7F {
        Some(
            map_read(
                read_i8(input, p),
                |v: i8|
                    Instruction::JCC {
                        cc: condition_code_for(op % 16)->0,
                        offset: ImmediateValue::I8(v),
                    },
            ),
        )
    } else if op == 0x80 || op == 0x81 || op == 0x83 {
        match read_u8(input, p) {
            (Err(e), q) => Some((Err(e), q)),
            (Ok(b), q) => {
                let m = modrm_of(b);
                match read_rm64(input, q, m, rex, true) {
                    (Err(e), q2) => Some((Err(e), q2)),
                    (Ok(dst), q2) => match read_imm(input, q2, op == 0x81) {
                        (Err(e), q3) => Some((Err(e), q3)),
                        (Ok(imm), q3) => Some(
                            (group1_instruction(m.reg, dst, Operand::ImmediateValue(imm)), q3),
                        ),
                    },
                }
            },
        }
    } else if op == 0x90 {
        Some(
            (
                Ok(
                    if f3 {
                        Instruction::PAUSE
                    } else {
                        Instruction::NOP
                    },
                ),
                p,
            ),
        )
    } else if 0x91 <= op <= 0x97 {
        Some(
            (
                Ok(
                    Instruction::XCHG {
                        dst: Operand::Register(Register::RAX),
                        src: Operand::Register(register_for(op % 8, rex_r(rex))->0),
                    },
                ),
                p,
            ),
        )
    } else if op == 0x98 || op == 0xFE {
        None
    } else if 0xB8 <= op <= 0xBF {
        let dst = Operand::Register(register_for(op % 8, rex_b(rex))->0);
        if rex is Some {
            Some(
                map_read(
                    read_i64(input, p),
                    |v: i64|
                        Instruction::MOV {
                            dst,
                            src: Operand::ImmediateValue(ImmediateValue::I64(v)),
                        },
                ),
            )
        } else {
            Some(
                map_read(
                    read_i32(input, p),
                    |v: i32|
                        Instruction::MOV {
                            dst,
                            src: Operand::ImmediateValue(ImmediateValue::I32(v)),
                        },
                ),
            )
        }
    } else if op == 0xC0 || op == 0xC1 {
        match read_u8(input, p) {
            (Err(e), q) => Some((Err(e), q)),
            (Ok(b), q) => {
                let m = modrm_of(b);
                if m.reg == 4 || m.reg == 5 || m.reg == 7 {
                    match read_rm64(input, q, m, rex, true) {
                        (Err(e), q2) => Some((Err(e), q2)),
                        (Ok(dst), q2) => Some(
                            map_read(
                                read_i8(input, q2),
                                |v: i8|
                                    shift_instruction(
                                        m.reg,
                                        dst,
                                        Operand::ImmediateValue(ImmediateValue::I8(v)),
                                    ),
                            ),
                        ),
                    }
                } else {
                    Some((Err(DisassemblyError::InvalidByte), q))
                }
            },
        }
    } else if op == 0xC2 || op == 0xCA {
        match read_u8(input, p) {
            (Err(e), q) => Some((Err(e), q)),
            (Ok(_), q) => Some(map_read(read_u8(input, q), |b: u8| Instruction::RET)),
        }
    } else if op == 0xC3 || op == 0xCB {
        Some((Ok(Instruction::RET), p))
    } else if op == 0xCC {
        Some((Ok(Instruction::INT3), p))
    } else if op == 0xCD {
        Some(
            map_read(
                read_i8(input, p),
                |v: i8| Instruction::INT { vector: ImmediateValue::I8(v) },
            ),
        )
    } else if 0xE4 <= op <= 0xE5 {
        Some(
            map_read(
                read_i8(input, p),
                |v: i8|
                    Instruction::IN {
                        dst: Register::RAX,
                        port: Operand::ImmediateValue(ImmediateValue::I8(v)),
                    },
            ),
        )
    } else if 0xE6 <= op <= 0xE7 {
        Some(
            map_read(
                read_i8(input, p),
                |v: i8|
                    Instruction::OUT {
                        src: Register::RAX,
                        port: Operand::ImmediateValue(ImmediateValue::I8(v)),
                    },
            ),
        )
    } else if op == 0xE9 || op == 0xEB {
        Some(
            map_read(
                read_imm(input, p, op == 0xE9),
                |v: ImmediateValue| Instruction::JMP { operand: Operand::ImmediateValue(v) },
            ),
        )
    } else if op == 0xEC || op == 0xED {
        Some(
            (
                Ok(Instruction::IN { dst: Register::RAX, port: Operand::Register(Register::RDX) }),
                p,
            ),
        )
    } else if op == 0xEE || op == 0xEF {
        Some(
            (
                Ok(Instruction::OUT { src: Register::RAX, port: Operand::Register(Register::RDX) }),
                p,
            ),
        )
    } else if op == 0xF1 {
        Some((Ok(Instruction::INT1), p))
    } else if op == 0xF4 {
        Some((Ok(Instruction::HLT), p))
    } else if op == 0xF5 {
        Some((Ok(Instruction::CMC), p))
    } else if op == 0xF6 || op == 0xF7 {
        match read_u8(input, p) {
            (Err(e), q) => Some((Err(e), q)),
            (Ok(b), q) => {
                let reg = modrm_of(b).reg;
                if reg == 2 || reg == 3 || reg == 5 || reg == 7 {
                    None
                } else {
                    Some((Err(DisassemblyError::InvalidByte), q))
                }
            },
        }
    } else if op == 0xF8 {
        Some((Ok(Instruction::CLC), p))
    } else if op == 0xF9 {
        Some((Ok(Instruction::STC), p))
    } else if op == 0xFA {
        Some((Ok(Instruction::CLI), p))
    } else if op == 0xFB {
        Some((Ok(Instruction::STI), p))
    } else if op == 0xFC {
        Some((Ok(Instruction::CLD), p))
    } else if op == 0xFD {
        Some((Ok(Instruction::STD), p))
    } else if op == 0xFF {
        match read_u8(input, p) {
            (Err(e), q) => Some((Err(e), q)),
            (Ok(b), q) => {
                let m = modrm_of(b);
                if m.reg == 0 {
                    Some(
                        map_read(
                            read_rm64(input, q, m, rex, true),
                            |o: Operand| Instruction::INC { operand: o },
                        ),
                    )
                } else if m.reg == 2 {
                    Some(
                        map_read(
                            read_rm64(input, q, m, rex, false),
                            |o: Operand| Instruction::CALL { operand: o },
                        ),
                    )
                } else if m.reg == 4 || m.reg == 5 {
                    Some(
                        map_read(
                            read_rm64(input, q, m, rex, false),
                            |o: Operand| Instruction::JMP { operand: o },
                        ),
                    )
                } else {
                    Some((Err(DisassemblyError::InvalidByte), q))
                }
            },
        }
    } else {
        Some((Err(DisassemblyError::UnsupportedOpcode { opcode: op }), p))
    }
}

/// The prefixes and opcode byte of an instruction: the opcode, the REX prefix
/// if any, and whether LOCK (0xF0), REPNE (0xF2) and REP (0xF3) were seen.
/// The legacy prefixes may repeat; a REX prefix is always followed by the
/// opcode byte.
pub open spec fn scan_prefixes(input: Seq<u8>, pos: int, lock: bool, f2: bool, f3: bool) -> (
    Result<(u8, Option<Rex>, bool, bool, bool), DisassemblyError>,
    int,
)
    decreases input.len() - pos,
{
    if 0 <= pos < input.len() {
        let b = input[pos];
        if b == 0xF0 {
            scan_prefixes(input, pos + 1, true, f2, f3)
        } else if b == 0xF2 {
            scan_prefixes(input, pos + 1, lock, true, f3)
        } else if b == 0xF3 {
            scan_prefixes(input, pos + 1, lock, f2, true)
        } else if is_rex(b) {
            match read_u8(input, pos + 1) {
                (Err(e), q) => (Err(e), q),
                (Ok(op), q) => (Ok((op, Some(Rex(b)), lock, f2, f3)), q),
            }
        } else {
            (Ok((b, None, lock, f2, f3)), pos + 1)
        }
    } else {
        (Err(DisassemblyError::PartialInstruction), pos)
    }
}

/// The decoding of the instruction that starts at `offset`: what
/// [`Disassembler::next`] returns, and the offset it leaves behind. `None`
/// stands for the encodings that the decoder does not handle (a LOCK prefix,
/// CBW/CWDE/CDQE, INC/DEC of group 4, the unary and multiply/divide forms of
/// group 3, and memory forms of 0F 01).
pub open spec fn decode_at(input: Seq<u8>, offset: int) -> Option<
    (Result<Instruction, DisassemblyError>, int),
> {
    if offset == input.len() {
        Some((Err(DisassemblyError::PartialInstruction), offset))
    } else {
        match scan_prefixes(input, offset, false, false, false) {
            (Err(e), p) => Some((Err(e), p)),
            (Ok((op, rex, lock, f2, f3)), p) => {
                if lock {
                    None
                } else {
                    decode_opcode(input, p, op, rex, f2, f3)
                }
            },
        }
    }
}

} // verus!

verus! {

proof fn lemma_low_bits(b: u8)
    ensures
        b & 7 == b % 8,
        b & 0x0F == b % 16,
{
    assert(b & 7u8 == b % 8) by (bit_vector);
    assert(b & 0x0Fu8 == b % 16) by (bit_vector);
}

fn two_operand(op: u8, rm: Operand, reg: Operand) -> (i: Instruction)
    ensures
        i == two_operand_instruction(op, rm, reg),
{
    match op {
        0x01 => Instruction::ADD { dst: rm, src: reg },
        0x09 => Instruction::OR { dst: rm, src: reg },
        0x0B => Instruction::OR { dst: reg, src: rm },
        0x21 => Instruction::AND { dst: rm, src: reg },
        0x23 => Instruction::AND { dst: reg, src: rm },
        0x29 => Instruction::SUB { dst: rm, src: reg },
        0x31 => Instruction::XOR { dst: rm, src: reg },
        0x39 => Instruction::CMP { src_1: rm, src_2: reg },
        0x84 | 0x85 => Instruction::TEST { src_1: rm, src_2: reg },
        0x86 | 0x87 => Instruction::XCHG { dst: rm, src: reg },
        0x88 | 0x89 => Instruction::MOV { dst: rm, src: reg },
        0x8A | 0x8B => Instruction::MOV { dst: reg, src: rm },
        _ => Instruction::LEA { dst: reg, src: rm },
    }
}

fn group1(reg: u8, dst: Operand, src: Operand) -> (r: Result<Instruction, DisassemblyError>)
    ensures
        r == group1_instruction(reg, dst, src),
{
    match reg {
        0x0 => Ok(Instruction::ADD { dst, src }),
        0x1 => Ok(Instruction::OR { dst, src }),
        0x2 => Ok(Instruction::ADC { dst, src }),
        0x3 => Ok(Instruction::SBB { dst, src }),
        0x4 => Ok(Instruction::AND { dst, src }),
        0x5 => Ok(Instruction::SUB { dst, src }),
        0x6 => Ok(Instruction::XOR { dst, src }),
        0x7 => Ok(Instruction::CMP { src_1: dst, src_2: src }),
        _ => Err(DisassemblyError::InvalidByte),
    }
}

impl<'a> Disassembler<'a> {
    fn parse_0f_instruction(&mut self, rex: Option<Rex>, f2_prefix: bool, f3_prefix: bool) -> (r:
        Result<Instruction, DisassemblyError>)
        requires
            decode_0f(old(self).input@, old(self).offset as int, rex, f2_prefix, f3_prefix) is Some,
        ensures
            final(self).input == old(self).input,
            decode_0f(old(self).input@, old(self).offset as int, rex, f2_prefix, f3_prefix) == Some(
                (r, final(self).offset as int),
            ),
    {
        let opcode = self.advance()?;
        proof {
            lemma_low_bits(opcode);
        }
        match opcode {
            0x01 => {
                let next_byte = self.advance()?;
                match next_byte {
                    0xC6 if f2_prefix => Ok(Instruction::RDMSRLIST),
                    0xC8 => Ok(Instruction::MONITOR),
                    0xC9 => Ok(Instruction::MWAIT),
                    0xEE => Ok(Instruction::RDPKRU),
                    0xF8 => Ok(Instruction::SWAPGS),
                    0xF9 => Ok(Instruction::RDTSCP),
                    other => {
                        let modrm = ModRm::new(other);
                        if modrm.is_memory() {
                            // Not handled: excluded by the precondition.
                            proof {
                                assert(false);
                            }
                            Err(DisassemblyError::InvalidByte)
                        } else {
                            Err(DisassemblyError::InvalidByte)
                        }
                    },
                }
            },
            // SYSCALL
            0x05 => Ok(Instruction::SYSCALL),
            // SYSRET
            0x07 => Ok(Instruction::SYSRET),
            // RDTSC
            0x31 => Ok(Instruction::RDTSC),
            // RDMSR
            0x32 => Ok(Instruction::RDMSR),
            // RDPMC
            0x33 => Ok(Instruction::RDPMC),
            // SYSENTER
            0x34 => Ok(Instruction::SYSENTER),
            // SYSEXIT
            0x35 => Ok(Instruction::SYSEXIT),
            // CMOVcc r64, r/m64
            0x40..=0x4F => {
                let cc = ConditionCode::new(opcode & 0x0F).unwrap();
                let (rm, reg) = self.parse_modrm_operands(rex, false, false)?;
                Ok(Instruction::CMOVCC { cc, dst: reg, src: rm })
            },
            // SETcc r/m8
            0x90..=0x9F => {
                let cc = ConditionCode::new(opcode & 0x0F).unwrap();
                let (rm, _reg) = self.parse_modrm_operands(rex, false, false)?;
                Ok(Instruction::SETCC { cc, byte: rm })
            },
            // CPUID
            0xA2 => Ok(Instruction::CPUID),
            // TZCNT, BSF, LZCNT, BSR r64, r/m64
            0xBC | 0xBD => {
                let (rm, reg) = self.parse_modrm_operands(rex, false, false)?;
                if opcode == 0xBC && f3_prefix {
                    Ok(Instruction::TZCNT { dst: reg, src: rm })
                } else if opcode == 0xBC {
                    Ok(Instruction::BSF { dst: reg, src: rm })
                } else if f3_prefix {
                    Ok(Instruction::LZCNT { dst: reg, src: rm })
                } else {
                    Ok(Instruction::BSR { dst: reg, src: rm })
                }
            },
            0xC7 => {
                let modrm = ModRm::new(self.advance()?);
                let rex_b = match rex {
                    Some(rex) => rex.b(),
                    None => false,
                };
                match modrm.reg {
                    // RDRAND r64
                    0x6 => Ok(Instruction::RDRAND { dst: modrm.rm_register(rex_b) }),
                    // RDPID r64
                    0x7 if f3_prefix => Ok(Instruction::RDPID { dst: modrm.rm_register(false) }),
                    // RDSEED r64
                    0x7 => Ok(Instruction::RDSEED { dst: modrm.rm_register(rex_b) }),
                    _ => Err(DisassemblyError::InvalidByte),
                }
            },
            other => Err(DisassemblyError::UnsupportedOpcode { opcode: other }),
        }
    }
}

} // verus!

verus! {

impl<'a> Disassembler<'a> {
    fn parse_opcode(&mut self, opcode: u8, rex: Option<Rex>, f2_prefix: bool, f3_prefix: bool) -> (r:
        Result<Instruction, DisassemblyError>)
        requires
            decode_opcode(old(self).input@, old(self).offset as int, opcode, rex, f2_prefix, f3_prefix) is Some,
        ensures
            final(self).input == old(self).input,
            decode_opcode(old(self).input@, old(self).offset as int, opcode, rex, f2_prefix, f3_prefix)
                == Some((r, final(self).offset as int)),
    {
        proof {
            lemma_low_bits(opcode);
        }
        let rex_r = match rex {
            Some(rex) => rex.r(),
            None => false,
        };
        let rex_b = match rex {
            Some(rex) => rex.b(),
            None => false,
        };
        match opcode {
            // ADD, OR, AND, SUB, XOR, CMP, TEST, XCHG, MOV and LEA with a
            // ModR/M byte.
            0x01 | 0x09 | 0x0B | 0x21 | 0x23 | 0x29 | 0x31 | 0x39 | 0x84..=0x8B | 0x8D => {
                let (rm, reg) = self.parse_modrm_operands(rex, opcode != 0x8D, true)?;
                Ok(two_operand(opcode, rm, reg))
            },
            // 0F xx
            0x0F => self.parse_0f_instruction(rex, f2_prefix, f3_prefix),
            // SBB AL, imm8
            0x1C => {
                let imm = ImmediateValue::I8(self.advance_i8()?);
                Ok(
                    Instruction::SBB {
                        dst: Operand::Register(Register::RAX),
                        src: Operand::ImmediateValue(imm),
                    },
                )
            },
            // 4X opcodes are not encodable in 64-bit mode, nor are PUSHA,
            // POPA, 0x82, INTO and far JMP.
            0x40..=0x4F | 0x60 | 0x61 | 0x82 | 0xCE | 0xEA => Err(DisassemblyError::InvalidByte),
            // PUSH r64
            0x50..=0x57 => Ok(
                Instruction::PUSH {
                    operand: Operand::Register(parse_register(opcode & 7, rex_r).unwrap()),
                },
            ),
            // POP r64
            0x58..=0x5F => Ok(
                Instruction::POP {
                    operand: Operand::Register(parse_register(opcode & 7, rex_r).unwrap()),
                },
            ),
            // PUSH imm32
            0x68 => Ok(
                Instruction::PUSH {
                    operand: Operand::ImmediateValue(ImmediateValue::I32(self.advance_i32()?)),
                },
            ),
            // PUSH imm8
            0x6A => Ok(
                Instruction::PUSH {
                    operand: Operand::ImmediateValue(ImmediateValue::I8(self.advance_i8()?)),
                },
            ),
            // Jcc rel8
            0x70..=0x7F => {
                let cc = ConditionCode::new(opcode & 0x0F).unwrap();
                Ok(Instruction::JCC { cc, offset: ImmediateValue::I8(self.advance_i8()?) })
            },
            // Immediate Group 1
            0x80 | 0x81 | 0x83 => {
                let modrm = ModRm::new(self.advance()?);
                let dst = self.parse_rm64_operand(modrm, rex, true)?;
                let src = Operand::ImmediateValue(
                    if opcode == 0x81 {
                        ImmediateValue::I32(self.advance_i32()?)
                    } else {
                        ImmediateValue::I8(self.advance_i8()?)
                    },
                );
                group1(modrm.reg, dst, src)
            },
            // PAUSE
            0x90 if f3_prefix => Ok(Instruction::PAUSE),
            // NOP (alias for `XCHG rax, rax`)
            0x90 => Ok(Instruction::NOP),
            // XCHG rax, r64
            0x91..=0x97 => Ok(
                Instruction::XCHG {
                    dst: Operand::Register(Register::RAX),
                    src: Operand::Register(parse_register(opcode & 7, rex_r).unwrap()),
                },
            ),
            // CBW/CWDE/CDQE and INC/DEC (group 4): not handled, excluded by
            // the precondition.
            0x98 | 0xFE => {
                proof {
                    assert(false);
                }
                Err(DisassemblyError::InvalidByte)
            },
            // MOV r64, imm
            0xB8..=0xBF => {
                let dst = Operand::Register(parse_register(opcode & 7, rex_b).unwrap());
                let src = Operand::ImmediateValue(
                    if rex.is_some() {
                        ImmediateValue::I64(self.advance_i64()?)
                    } else {
                        ImmediateValue::I32(self.advance_i32()?)
                    },
                );
                Ok(Instruction::MOV { dst, src })
            },
            // Group 2: SHL, SHR, SAR r/m, imm8
            0xC0 | 0xC1 => {
                let modrm = ModRm::new(self.advance()?);
                match modrm.reg {
                    0x4 => {
                        let dst = self.parse_rm64_operand(modrm, rex, true)?;
                        let src = Operand::ImmediateValue(ImmediateValue::I8(self.advance_i8()?));
                        Ok(Instruction::SHL { dst, src })
                    },
                    0x5 => {
                        let dst = self.parse_rm64_operand(modrm, rex, true)?;
                        let src = Operand::ImmediateValue(ImmediateValue::I8(self.advance_i8()?));
                        Ok(Instruction::SHR { dst, src })
                    },
                    0x7 => {
                        let dst = self.parse_rm64_operand(modrm, rex, true)?;
                        let src = Operand::ImmediateValue(ImmediateValue::I8(self.advance_i8()?));
                        Ok(Instruction::SAR { dst, src })
                    },
                    _ => Err(DisassemblyError::InvalidByte),
                }
            },
            // RET imm16
            0xC2 | 0xCA => {
                let _ = self.advance()?;
                let _ = self.advance()?;
                Ok(Instruction::RET)
            },
            // RET
            0xC3 | 0xCB => Ok(Instruction::RET),
            // INT3
            0xCC => Ok(Instruction::INT3),
            // INT imm8
            0xCD => Ok(Instruction::INT { vector: ImmediateValue::I8(self.advance_i8()?) }),
            // IN AL/AX/EAX, imm8
            0xE4..=0xE5 => Ok(
                Instruction::IN {
                    dst: Register::RAX,
                    port: Operand::ImmediateValue(ImmediateValue::I8(self.advance_i8()?)),
                },
            ),
            // OUT imm8, AL/AX/EAX
            0xE6..=0xE7 => Ok(
                Instruction::OUT {
                    src: Register::RAX,
                    port: Operand::ImmediateValue(ImmediateValue::I8(self.advance_i8()?)),
                },
            ),
            // JMP rel32
            0xE9 => Ok(
                Instruction::JMP {
                    operand: Operand::ImmediateValue(ImmediateValue::I32(self.advance_i32()?)),
                },
            ),
            // JMP rel8
            0xEB => Ok(
                Instruction::JMP {
                    operand: Operand::ImmediateValue(ImmediateValue::I8(self.advance_i8()?)),
                },
            ),
            // IN AL/AX/EAX, DX
            0xEC | 0xED => Ok(
                Instruction::IN { dst: Register::RAX, port: Operand::Register(Register::RDX) },
            ),
            // OUT DX, AL/AX/EAX
            0xEE | 0xEF => Ok(
                Instruction::OUT { src: Register::RAX, port: Operand::Register(Register::RDX) },
            ),
            // INT1
            0xF1 => Ok(Instruction::INT1),
            // HLT
            0xF4 => Ok(Instruction::HLT),
            // CMC
            0xF5 => Ok(Instruction::CMC),
            // Group 3
            0xF6 | 0xF7 => {
                let modrm = ModRm::new(self.advance()?);
                match modrm.reg {
                    // NOT, NEG, IMUL and IDIV: not handled, excluded by the
                    // precondition.
                    0x2 | 0x3 | 0x5 | 0x7 => {
                        proof {
                            assert(false);
                        }
                        Err(DisassemblyError::InvalidByte)
                    },
                    _ => Err(DisassemblyError::InvalidByte),
                }
            },
            // CLC
            0xF8 => Ok(Instruction::CLC),
            // STC
            0xF9 => Ok(Instruction::STC),
            // CLI
            0xFA => Ok(Instruction::CLI),
            // STI
            0xFB => Ok(Instruction::STI),
            // CLD
            0xFC => Ok(Instruction::CLD),
            // STD
            0xFD => Ok(Instruction::STD),
            // Group 5
            0xFF => {
                let modrm = ModRm::new(self.advance()?);
                match modrm.reg {
                    // INC r/m64
                    0x0 => Ok(Instruction::INC { operand: self.parse_rm64_operand(modrm, rex, true)? }),
                    // CALL r/m64
                    0x2 => Ok(
                        Instruction::CALL { operand: self.parse_rm64_operand(modrm, rex, false)? },
                    ),
                    // JMP r/m64, JMP m16:64
                    0x4 | 0x5 => Ok(
                        Instruction::JMP { operand: self.parse_rm64_operand(modrm, rex, false)? },
                    ),
                    _ => Err(DisassemblyError::InvalidByte),
                }
            },
            other => Err(DisassemblyError::UnsupportedOpcode { opcode: other }),
        }
    }
}

} // verus!

verus! {

impl<'a> Disassembler<'a> {
    /// Read the legacy prefixes, the optional REX prefix and the opcode byte.
    fn parse_prefixes(&mut self) -> (r: Result<(u8, Option<Rex>, bool, bool, bool), DisassemblyError>)
        ensures
            final(self).input == old(self).input,
            (r, final(self).offset as int) == scan_prefixes(
                old(self).input@,
                old(self).offset as int,
                false,
                false,
                false,
            ),
    {
        let ghost input = self.input@;
        let ghost start = self.offset as int;
        let mut lock_prefix = false;
        let mut f2_prefix = false;
        let mut f3_prefix = false;
        loop
            invariant
                self.input == old(self).input,
                input == self.input@,
                start == old(self).offset,
                scan_prefixes(input, start, false, false, false) == scan_prefixes(
                    input,
                    self.offset as int,
                    lock_prefix,
                    f2_prefix,
                    f3_prefix,
                ),
            decreases input.len() - self.offset,
        {
            let byte = self.advance()?;
            match byte {
                0xF0 => {
                    lock_prefix = true;
                },
                0xF2 => {
                    f2_prefix = true;
                },
                0xF3 => {
                    f3_prefix = true;
                },
                byte if is_rex_prefix(byte) => {
                    let opcode = self.advance()?;
                    return Ok((opcode, Some(Rex(byte)), lock_prefix, f2_prefix, f3_prefix));
                },
                byte => {
                    return Ok((byte, None, lock_prefix, f2_prefix, f3_prefix));
                },
            }
        }
    }

    /// Decode the instruction at the current offset and move past it.
    ///
    /// Decoding is described by [`decode_at`]; the encodings for which it
    /// gives `None` are not handled and may not be passed.
    pub fn next(&mut self) -> (r: Result<Instruction, DisassemblyError>)
        requires
            decode_at(old(self).input@, old(self).offset as int) is Some,
        ensures
            final(self).input == old(self).input,
            decode_at(old(self).input@, old(self).offset as int) == Some(
                (r, final(self).offset as int),
            ),
    {
        if self.offset == self.input.len() {
            return Err(DisassemblyError::PartialInstruction);
        }
        let (opcode, rex, lock_prefix, f2_prefix, f3_prefix) = self.parse_prefixes()?;
        if lock_prefix {
            // A LOCK prefix is not handled: excluded by the precondition.
            proof {
                assert(false);
            }
            return Err(DisassemblyError::InvalidByte);
        }
        self.parse_opcode(opcode, rex, f2_prefix, f3_prefix)
    }
}

} // verus!

verus! {

/// A read from `pos` that stays within the input: it ends between `pos` and
/// the end, and it only runs out of input at the end.
pub open spec fn stays_within<A>(r: (Result<A, DisassemblyError>, int), input: Seq<u8>, pos: int) -> bool {
    &&& pos <= r.1 <= input.len()
    &&& r.0 == Err::<A, DisassemblyError>(DisassemblyError::PartialInstruction) ==> r.1 == input.len()
}

proof fn lemma_operands_stay_within(input: Seq<u8>, pos: int, rex: Option<Rex>, a: bool, b: bool)
    requires
        0 <= pos <= input.len(),
    ensures
        stays_within(read_modrm_operands(input, pos, rex, a, b), input, pos),
        forall|m: ModRm, u: bool| #[trigger]
            stays_within(read_rm64(input, pos, m, rex, u), input, pos),
        forall|w: bool| #[trigger] stays_within(read_imm(input, pos, w), input, pos),
        stays_within(read_i8(input, pos), input, pos),
        stays_within(read_u8(input, pos), input, pos),
        stays_within(read_i32(input, pos), input, pos),
        stays_within(read_i64(input, pos), input, pos),
{
    assert forall|m: ModRm, u: bool| #[trigger]
        stays_within(read_rm64(input, pos, m, rex, u), input, pos) by {
        if pos < input.len() {
            let sib = sib_of(input[pos]);
            let _ = read_disp(input, pos + 1, sib_disp_size(sib, m));
        }
    }
    if pos < input.len() {
        let m = modrm_of(input[pos]);
        assert(stays_within(read_rm64(input, pos + 1, m, rex, a), input, pos + 1)) by {
            if pos + 1 < input.len() {
                let sib = sib_of(input[pos + 1]);
                let _ = read_disp(input, pos + 2, sib_disp_size(sib, m));
            }
        }
    }
}

proof fn lemma_scan_stays_within(input: Seq<u8>, pos: int, lock: bool, f2: bool, f3: bool)
    requires
        0 <= pos <= input.len(),
    ensures
        stays_within(scan_prefixes(input, pos, lock, f2, f3), input, pos),
        scan_prefixes(input, pos, lock, f2, f3).0 is Ok ==> pos < scan_prefixes(
            input,
            pos,
            lock,
            f2,
            f3,
        ).1,
        scan_prefixes(input, pos, lock, f2, f3).0 is Err ==> scan_prefixes(
            input,
            pos,
            lock,
            f2,
            f3,
        ).1 == input.len(),
    decreases input.len() - pos,
{
    if pos < input.len() {
        let b = input[pos];
        if b == 0xF0 {
            lemma_scan_stays_within(input, pos + 1, true, f2, f3);
        } else if b == 0xF2 {
            lemma_scan_stays_within(input, pos + 1, lock, true, f3);
        } else if b == 0xF3 {
            lemma_scan_stays_within(input, pos + 1, lock, f2, true);
        }
    }
}

proof fn lemma_map_stays_within<A>(
    r: (Result<A, DisassemblyError>, int),
    f: spec_fn(A) -> Instruction,
    input: Seq<u8>,
    pos: int,
)
    requires
        stays_within(r, input, pos),
    ensures
        stays_within(map_read(r, f), input, pos),
{
}

proof fn lemma_0f_stays_within(input: Seq<u8>, p: int, rex: Option<Rex>, f2: bool, f3: bool)
    requires
        0 <= p <= input.len(),
        decode_0f(input, p, rex, f2, f3) is Some,
    ensures
        stays_within(decode_0f(input, p, rex, f2, f3).unwrap(), input, p),
{
    if p < input.len() {
        let op = input[p];
        lemma_operands_stay_within(input, p + 1, rex, false, false);
        let r = read_modrm_operands(input, p + 1, rex, false, false);
        if 0x40 <= op <= 0x4F {
            let cc = condition_code_for(op % 16)->0;
            lemma_map_stays_within(
                r,
                |ops: (Operand, Operand)| Instruction::CMOVCC { cc, dst: ops.1, src: ops.0 },
                input,
                p + 1,
            );
        } else if 0x90 <= op <= 0x9F {
            let cc = condition_code_for(op % 16)->0;
            lemma_map_stays_within(
                r,
                |ops: (Operand, Operand)| Instruction::SETCC { cc, byte: ops.0 },
                input,
                p + 1,
            );
        } else if op == 0xBC || op == 0xBD {
            lemma_map_stays_within(
                r,
                |ops: (Operand, Operand)|
                    if op == 0xBC && f3 {
                        Instruction::TZCNT { dst: ops.1, src: ops.0 }
                    } else if op == 0xBC {
                        Instruction::BSF { dst: ops.1, src: ops.0 }
                    } else if f3 {
                        Instruction::LZCNT { dst: ops.1, src: ops.0 }
                    } else {
                        Instruction::BSR { dst: ops.1, src: ops.0 }
                    },
                input,
                p + 1,
            );
        }
    }
}

#[verifier::rlimit(40)]
proof fn lemma_opcode_stays_within(input: Seq<u8>, p: int, op: u8, rex: Option<Rex>, f2: bool, f3: bool)
    requires
        0 <= p <= input.len(),
        decode_opcode(input, p, op, rex, f2, f3) is Some,
    ensures
        stays_within(decode_opcode(input, p, op, rex, f2, f3).unwrap(), input, p),
{
    lemma_operands_stay_within(input, p, rex, op != 0x8D, true);
    if is_two_operand_opcode(op) {
        lemma_map_stays_within(
            read_modrm_operands(input, p, rex, op != 0x8D, true),
            |ops: (Operand, Operand)| two_operand_instruction(op, ops.0, ops.1),
            input,
            p,
        );
    } else if op == 0x0F {
        lemma_0f_stays_within(input, p, rex, f2, f3);
    } else if op == 0x1C || 0x70 <= op <= 0x7F || op == 0xCD || 0xE4 <= op <= 0xE7 {
        assert(stays_within(decode_opcode(input, p, op, rex, f2, f3).unwrap(), input, p));
    } else if op == 0x80 || op == 0x81 || op == 0x83 || op == 0xC0 || op == 0xC1 || op == 0xFF {
        if p < input.len() {
            let m = modrm_of(input[p]);
            lemma_operands_stay_within(input, p + 1, rex, false, false);
            let q2 = read_rm64(input, p + 1, m, rex, true).1;
            assert(stays_within(read_rm64(input, p + 1, m, rex, true), input, p + 1));
            assert(stays_within(read_rm64(input, p + 1, m, rex, false), input, p + 1));
            if p + 1 <= q2 <= input.len() {
                lemma_operands_stay_within(input, q2, rex, false, false);
                assert(stays_within(read_imm(input, q2, op == 0x81), input, q2));
            }
        }
    } else if op == 0xC2 || op == 0xCA || op == 0xF6 || op == 0xF7 {
        if p < input.len() {
            lemma_operands_stay_within(input, p + 1, rex, false, false);
        }
    }
}

/// Immediate group 1 (opcodes 0x80, 0x81 and 0x83, after an optional REX
/// prefix) takes its operation from the `reg` field, bits 5-3, of the ModR/M
/// byte that follows the opcode, as the x86 opcode map lays it out: 0 ADD,
/// 1 OR, 2 ADC, 3 SBB, 4 AND, 5 SUB, 6 XOR, 7 CMP. Decoding there always
/// gives an answer, and an instruction decoded there is the one that its
/// `reg` field names, whatever its operands.
pub proof fn lemma_group1_operation(input: Seq<u8>, offset: int, at: int)
    requires
        0 <= offset,
        at == offset || (at == offset + 1 && 0x40 <= input[offset] <= 0x4F),
        at + 1 < input.len(),
        input[at] == 0x80 || input[at] == 0x81 || input[at] == 0x83,
    ensures
        decode_at(input, offset) is Some,
        decode_at(input, offset).unwrap().0 matches Ok(i) ==> {
            let reg = (input[at + 1] / 8) % 8;
            &&& (reg == 0 ==> i is ADD)
            &&& (reg == 1 ==> i is OR)
            &&& (reg == 2 ==> i is ADC)
            &&& (reg == 3 ==> i is SBB)
            &&& (reg == 4 ==> i is AND)
            &&& (reg == 5 ==> i is SUB)
            &&& (reg == 6 ==> i is XOR)
            &&& (reg == 7 ==> i is CMP)
        },
{
}

/// Shift group 2 with an 8-bit count (opcodes 0xC0 and 0xC1, after an
/// optional REX prefix) takes its operation from the `reg` field of the
/// ModR/M byte: 4 SHL, 5 SHR, 7 SAR; the decoder refuses the other fields
/// as invalid.
pub proof fn lemma_shift_operation(input: Seq<u8>, offset: int, at: int)
    requires
        0 <= offset,
        at == offset || (at == offset + 1 && 0x40 <= input[offset] <= 0x4F),
        at + 1 < input.len(),
        input[at] == 0xC0 || input[at] == 0xC1,
    ensures
        decode_at(input, offset) is Some,
        ({
            let reg = (input[at + 1] / 8) % 8;
            &&& reg != 4 && reg != 5 && reg != 7 ==> decode_at(input, offset).unwrap().0 == Err::<
                Instruction,
                DisassemblyError,
            >(DisassemblyError::InvalidByte)
            &&& decode_at(input, offset).unwrap().0 matches Ok(i) ==> {
                &&& (reg == 4 ==> i is SHL)
                &&& (reg == 5 ==> i is SHR)
                &&& (reg == 7 ==> i is SAR)
            }
        }),
{
}

/// The two-operand opcodes between registers (ModR/M `mod` 3, no prefix),
/// as the x86 opcode map gives operation and direction: `01 /r` is ADD r/m,
/// reg; `09` OR r/m, reg; `0B` OR reg, r/m; `21` AND r/m, reg; `23` AND reg,
/// r/m; `29` SUB r/m, reg; `31` XOR r/m, reg; `39` CMP r/m, reg; `85` TEST
/// r/m, reg; `87` XCHG r/m, reg; `89` MOV r/m, reg; `8B` MOV reg, r/m. The
/// `r/m` operand is the register that bits 2-0 name, the `reg` operand the
/// one that bits 5-3 name, and the instruction takes two bytes.
pub proof fn lemma_two_operand_registers(op: u8, m: u8)
    requires
        m >= 0xC0,
    ensures
        op == 0x01 ==> decode_at(seq![op, m], 0) == Some(
            (
                Ok::<Instruction, DisassemblyError>(
                    Instruction::ADD {
                        dst: Operand::Register(register_number((m % 8) as int)),
                        src: Operand::Register(register_number(((m / 8) % 8) as int)),
                    },
                ),
                2int,
            ),
        ),
        op == 0x09 ==> decode_at(seq![op, m], 0) == Some(
            (
                Ok::<Instruction, DisassemblyError>(
                    Instruction::OR {
                        dst: Operand::Register(register_number((m % 8) as int)),
                        src: Operand::Register(register_number(((m / 8) % 8) as int)),
                    },
                ),
                2int,
            ),
        ),
        op == 0x0B ==> decode_at(seq![op, m], 0) == Some(
            (
                Ok::<Instruction, DisassemblyError>(
                    Instruction::OR {
                        dst: Operand::Register(register_number(((m / 8) % 8) as int)),
                        src: Operand::Register(register_number((m % 8) as int)),
                    },
                ),
                2int,
            ),
        ),
        op == 0x21 ==> decode_at(seq![op, m], 0) == Some(
            (
                Ok::<Instruction, DisassemblyError>(
                    Instruction::AND {
                        dst: Operand::Register(register_number((m % 8) as int)),
                        src: Operand::Register(register_number(((m / 8) % 8) as int)),
                    },
                ),
                2int,
            ),
        ),
        op == 0x23 ==> decode_at(seq![op, m], 0) == Some(
            (
                Ok::<Instruction, DisassemblyError>(
                    Instruction::AND {
                        dst: Operand::Register(register_number(((m / 8) % 8) as int)),
                        src: Operand::Register(register_number((m % 8) as int)),
                    },
                ),
                2int,
            ),
        ),
        op == 0x29 ==> decode_at(seq![op, m], 0) == Some(
            (
                Ok::<Instruction, DisassemblyError>(
                    Instruction::SUB {
                        dst: Operand::Register(register_number((m % 8) as int)),
                        src: Operand::Register(register_number(((m / 8) % 8) as int)),
                    },
                ),
                2int,
            ),
        ),
        op == 0x31 ==> decode_at(seq![op, m], 0) == Some(
            (
                Ok::<Instruction, DisassemblyError>(
                    Instruction::XOR {
                        dst: Operand::Register(register_number((m % 8) as int)),
                        src: Operand::Register(register_number(((m / 8) % 8) as int)),
                    },
                ),
                2int,
            ),
        ),
        op == 0x39 ==> decode_at(seq![op, m], 0) == Some(
            (
                Ok::<Instruction, DisassemblyError>(
                    Instruction::CMP {
                        src_1: Operand::Register(register_number((m % 8) as int)),
                        src_2: Operand::Register(register_number(((m / 8) % 8) as int)),
                    },
                ),
                2int,
            ),
        ),
        op == 0x85 ==> decode_at(seq![op, m], 0) == Some(
            (
                Ok::<Instruction, DisassemblyError>(
                    Instruction::TEST {
                        src_1: Operand::Register(register_number((m % 8) as int)),
                        src_2: Operand::Register(register_number(((m / 8) % 8) as int)),
                    },
                ),
                2int,
            ),
        ),
        op == 0x87 ==> decode_at(seq![op, m], 0) == Some(
            (
                Ok::<Instruction, DisassemblyError>(
                    Instruction::XCHG {
                        dst: Operand::Register(register_number((m % 8) as int)),
                        src: Operand::Register(register_number(((m / 8) % 8) as int)),
                    },
                ),
                2int,
            ),
        ),
        op == 0x89 ==> decode_at(seq![op, m], 0) == Some(
            (
                Ok::<Instruction, DisassemblyError>(
                    Instruction::MOV {
                        dst: Operand::Register(register_number((m % 8) as int)),
                        src: Operand::Register(register_number(((m / 8) % 8) as int)),
                    },
                ),
                2int,
            ),
        ),
        op == 0x8B ==> decode_at(seq![op, m], 0) == Some(
            (
                Ok::<Instruction, DisassemblyError>(
                    Instruction::MOV {
                        dst: Operand::Register(register_number(((m / 8) % 8) as int)),
                        src: Operand::Register(register_number((m % 8) as int)),
                    },
                ),
                2int,
            ),
        ),
{
    let input = seq![op, m];
    assert(input[0] == op && input[1] == m);
}

/// `REX.W 83 /r ib` on a register (ModR/M `mod` 3): the operation that the
/// `reg` field names (0 ADD, 1 OR, 2 ADC, 3 SBB, 4 AND, 5 SUB, 6 XOR, 7 CMP),
/// applied to the register that the `r/m` field names and the sign-extended
/// 8-bit immediate, in four bytes. So `48 83 EC 08` is `sub rsp, 8`.
pub proof fn lemma_group1_register_imm8(m: u8, v: u8)
    requires
        m >= 0xC0,
    ensures
        (m / 8) % 8 == 0 ==> decode_at(seq![0x48u8, 0x83u8, m, v], 0) == Some(
            (
                Ok::<Instruction, DisassemblyError>(
                    Instruction::ADD {
                        dst: Operand::Register(register_number((m % 8) as int)),
                        src: Operand::ImmediateValue(ImmediateValue::I8(v as i8)),
                    },
                ),
                4int,
            ),
        ),
        (m / 8) % 8 == 1 ==> decode_at(seq![0x48u8, 0x83u8, m, v], 0) == Some(
            (
                Ok::<Instruction, DisassemblyError>(
                    Instruction::OR {
                        dst: Operand::Register(register_number((m % 8) as int)),
                        src: Operand::ImmediateValue(ImmediateValue::I8(v as i8)),
                    },
                ),
                4int,
            ),
        ),
        (m / 8) % 8 == 2 ==> decode_at(seq![0x48u8, 0x83u8, m, v], 0) == Some(
            (
                Ok::<Instruction, DisassemblyError>(
                    Instruction::ADC {
                        dst: Operand::Register(register_number((m % 8) as int)),
                        src: Operand::ImmediateValue(ImmediateValue::I8(v as i8)),
                    },
                ),
                4int,
            ),
        ),
        (m / 8) % 8 == 3 ==> decode_at(seq![0x48u8, 0x83u8, m, v], 0) == Some(
            (
                Ok::<Instruction, DisassemblyError>(
                    Instruction::SBB {
                        dst: Operand::Register(register_number((m % 8) as int)),
                        src: Operand::ImmediateValue(ImmediateValue::I8(v as i8)),
                    },
                ),
                4int,
            ),
        ),
        (m / 8) % 8 == 4 ==> decode_at(seq![0x48u8, 0x83u8, m, v], 0) == Some(
            (
                Ok::<Instruction, DisassemblyError>(
                    Instruction::AND {
                        dst: Operand::Register(register_number((m % 8) as int)),
                        src: Operand::ImmediateValue(ImmediateValue::I8(v as i8)),
                    },
                ),
                4int,
            ),
        ),
        (m / 8) % 8 == 5 ==> decode_at(seq![0x48u8, 0x83u8, m, v], 0) == Some(
            (
                Ok::<Instruction, DisassemblyError>(
                    Instruction::SUB {
                        dst: Operand::Register(register_number((m % 8) as int)),
                        src: Operand::ImmediateValue(ImmediateValue::I8(v as i8)),
                    },
                ),
                4int,
            ),
        ),
        (m / 8) % 8 == 6 ==> decode_at(seq![0x48u8, 0x83u8, m, v], 0) == Some(
            (
                Ok::<Instruction, DisassemblyError>(
                    Instruction::XOR {
                        dst: Operand::Register(register_number((m % 8) as int)),
                        src: Operand::ImmediateValue(ImmediateValue::I8(v as i8)),
                    },
                ),
                4int,
            ),
        ),
        (m / 8) % 8 == 7 ==> decode_at(seq![0x48u8, 0x83u8, m, v], 0) == Some(
            (
                Ok::<Instruction, DisassemblyError>(
                    Instruction::CMP {
                        src_1: Operand::Register(register_number((m % 8) as int)),
                        src_2: Operand::ImmediateValue(ImmediateValue::I8(v as i8)),
                    },
                ),
                4int,
            ),
        ),
{
    let input = seq![0x48u8, 0x83u8, m, v];
    assert(input[0] == 0x48u8 && input[1] == 0x83u8 && input[2] == m && input[3] == v);
}

/// Decoding always moves forward and never past the end of the input: a
/// decoded instruction consumes at least one byte, running out of input
/// leaves the offset at the end, and an instruction is only read from the
/// bytes that the input holds.
pub proof fn lemma_decode_progress(input: Seq<u8>, offset: int)
    requires
        0 <= offset <= input.len(),
        decode_at(input, offset) is Some,
    ensures
        offset <= decode_at(input, offset).unwrap().1 <= input.len(),
        offset < input.len() ==> offset < decode_at(input, offset).unwrap().1,
        decode_at(input, offset).unwrap().0 is Ok ==> offset < decode_at(input, offset).unwrap().1,
        decode_at(input, offset).unwrap().0 == Err::<Instruction, DisassemblyError>(
            DisassemblyError::PartialInstruction,
        ) ==> decode_at(input, offset).unwrap().1 == input.len(),
{
    if offset < input.len() {
        lemma_scan_stays_within(input, offset, false, false, false);
        let (r, p) = scan_prefixes(input, offset, false, false, false);
        if let Ok((op, rex, lock, f2, f3)) = r {
            if !lock {
                lemma_opcode_stays_within(input, p, op, rex, f2, f3);
            }
        }
    }
}

} // verus!
