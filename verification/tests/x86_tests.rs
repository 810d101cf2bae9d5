use rhubarb::x86::Register::{R10, R11, R12, R13, R8, RAX, RBP, RBX, RCX, RDI, RDX, RSI, RSP};
use rhubarb::x86::{
    ConditionCode, Disassembler, DisassemblyError, ImmediateValue, Instruction, ModRm, Operand,
    Register, Rex, Sib,
};

fn reg(r: Register) -> Operand {
    Operand::Register(r)
}

fn mem(base: Option<Register>, index: Option<Register>, scale: u8, disp: i32) -> Operand {
    Operand::Memory { base, index, scale, disp }
}

#[test]
fn asm_smoke() {
    let instructions = [
        0x55,
        0x48, 0x89, 0xe5,
        0x48, 0x8b, 0x06,
        0x48, 0x89, 0x07,
        0x5d,
        0xc3,
    ];
    let expected = [
        Instruction::PUSH { operand: reg(Register::RBP) },
        Instruction::MOV { dst: reg(Register::RBP), src: reg(Register::RSP) },
        Instruction::MOV { dst: reg(Register::RAX), src: mem(Some(Register::RSI), None, 1, 0) },
        Instruction::MOV { dst: mem(Some(Register::RDI), None, 1, 0), src: reg(Register::RAX) },
        Instruction::POP { operand: reg(Register::RBP) },
        Instruction::RET,
    ];

    let mut disassembler = Disassembler::new(&instructions);
    let mut i = 0;
    while let Ok(instruction) = disassembler.next() {
        assert_eq!(instruction, expected[i]);
        i += 1;
    }
    assert_eq!(disassembler.offset, instructions.len());
    assert_eq!(i, expected.len());
}

#[test]
fn parse_with_sib_and_disp() {
    let instructions = [
        0x4a, 0x8b, 0x04, 0x17,                         // mov  (%rdi,%r10,1),%rax
        0x4e, 0x8b, 0x5c, 0x17, 0x08,                   // mov  0x8(%rdi,%r10,1),%r11
        0x4e, 0x8b, 0x04, 0x12,                         // mov  (%rdx,%r10,1),%r8
        0x4a, 0x8b, 0x5c, 0x12, 0x08,                   // mov  0x8(%rdx,%r10,1),%rbx
        0x4a, 0x89, 0x84, 0xed, 0x28, 0xfd, 0xff, 0xff, // mov  %rax,-0x2d8(%rbp,%r13,8)
        0x8b, 0x3c, 0x81,                               // mov  (%rcx,%rax,4),%edi
        0x89, 0x8c, 0x85, 0x18, 0xff, 0xff, 0xff,       // mov  %ecx,-0xe8(%rbp,%rax,4)
        0x48, 0x8b, 0x75, 0xc8,                         // mov  -0x38(%rbp),%rsi
        0x4c, 0x8d, 0x61, 0xff,                         // lea  -0x1(%rcx),%r12
        0x4d, 0x8d, 0x6c, 0x24, 0xff,                   // lea  -0x1(%r12),%r13
        0x4c, 0x8d, 0x2c, 0xd5, 0xd0, 0xfd, 0xff, 0xff, // lea  -0x230(,%rdx,8),%r13
        0x8d, 0x91, 0x00, 0x00, 0x80, 0x3f,             // lea  0x3f800000(%rcx),%edx
    ];
    let expected = [
        Instruction::MOV { dst: reg(RAX), src: mem(Some(RDI), Some(R10), 1, 0) },
        Instruction::MOV { dst: reg(R11), src: mem(Some(RDI), Some(R10), 1, 8) },
        Instruction::MOV { dst: reg(R8), src: mem(Some(RDX), Some(R10), 1, 0) },
        Instruction::MOV { dst: reg(RBX), src: mem(Some(RDX), Some(R10), 1, 8) },
        Instruction::MOV { dst: mem(Some(RBP), Some(R13), 8, -0x2d8), src: reg(RAX) },
        Instruction::MOV { dst: reg(RDI), src: mem(Some(RCX), Some(RAX), 4, 0) },
        Instruction::MOV { dst: mem(Some(RBP), Some(RAX), 4, -0xe8), src: reg(RCX) },
        Instruction::MOV { dst: reg(RSI), src: mem(Some(RBP), None, 1, -0x38) },
        Instruction::LEA { dst: reg(R12), src: mem(Some(RCX), None, 1, -0x1) },
        Instruction::LEA { dst: reg(R13), src: mem(Some(R12), None, 1, -0x1) },
        Instruction::LEA { dst: reg(R13), src: mem(None, Some(RDX), 8, -0x230) },
        Instruction::LEA { dst: reg(RDX), src: mem(Some(RCX), None, 1, 0x3f800000) },
    ];

    let mut disassembler = Disassembler::new(&instructions);
    let mut i = 0;
    let mut next = disassembler.next();
    while i < expected.len() {
        assert_eq!(next.unwrap(), expected[i]);
        i += 1;
        next = disassembler.next();
    }
    assert_eq!(next, Err(DisassemblyError::PartialInstruction));
    assert_eq!(disassembler.offset, instructions.len());
    assert_eq!(i, expected.len());
}

#[test]
fn print() {
    let instructions = [
        0x48, 0x39, 0xd6,
        0x77, 0x12,
        0x48, 0xbf, 0x00, 0x00, 0x00, 0x00, 0x00, 0x00, 0x00, 0x00,
        0x41, 0xff, 0xd0,
    ];

    let mut disassembler = Disassembler::new(&instructions);
    while let Ok(instruction) = disassembler.next() {
        println!("{instruction:?}");
    }
}

#[test]
fn decodes_immediates_and_condition_codes() {
    let bytes = [
        0x48, 0x39, 0xd6, // cmp %rdx,%rsi
        0x77, 0x12, // ja +0x12
        0x48, 0xbf, 0x01, 0x02, 0x03, 0x04, 0x05, 0x06, 0x07, 0x88, // movabs
        0x41, 0xff, 0xd0, // call *%r8
        0x68, 0xfe, 0xff, 0xff, 0xff, // push $-2
        0x0f, 0x44, 0xc1, // cmove %ecx,%eax
    ];
    let mut d = Disassembler::new(&bytes);
    assert_eq!(
        d.next(),
        Ok(Instruction::CMP { src_1: reg(Register::RSI), src_2: reg(Register::RDX) })
    );
    assert_eq!(
        d.next(),
        Ok(Instruction::JCC { cc: ConditionCode::A, offset: ImmediateValue::I8(0x12) })
    );
    assert_eq!(
        d.next(),
        Ok(Instruction::MOV {
            dst: reg(Register::RDI),
            src: Operand::ImmediateValue(ImmediateValue::I64(0x8807060504030201u64 as i64)),
        })
    );
    assert_eq!(d.next(), Ok(Instruction::CALL { operand: reg(Register::R8) }));
    assert_eq!(
        d.next(),
        Ok(Instruction::PUSH { operand: Operand::ImmediateValue(ImmediateValue::I32(-2)) })
    );
    assert_eq!(
        d.next(),
        Ok(Instruction::CMOVCC {
            cc: ConditionCode::Z,
            dst: reg(Register::RAX),
            src: reg(Register::RCX),
        })
    );
    assert_eq!(d.offset, bytes.len());
}

#[test]
fn reports_errors() {
    // Truncated instruction: the offset ends at the end of the input.
    let bytes = [0x48, 0x8b];
    let mut d = Disassembler::new(&bytes);
    assert_eq!(d.next(), Err(DisassemblyError::PartialInstruction));
    assert_eq!(d.offset, 2);

    // Not encodable in 64-bit mode.
    let bytes = [0x60, 0x90];
    let mut d = Disassembler::new(&bytes);
    assert_eq!(d.next(), Err(DisassemblyError::InvalidByte));
    assert_eq!(d.offset, 1);
    assert_eq!(d.next(), Ok(Instruction::NOP));

    // Unknown opcode.
    let bytes = [0x06];
    let mut d = Disassembler::new(&bytes);
    assert_eq!(d.next(), Err(DisassemblyError::UnsupportedOpcode { opcode: 0x06 }));

    // PAUSE is NOP with a REP prefix.
    let bytes = [0xf3, 0x90];
    let mut d = Disassembler::new(&bytes);
    assert_eq!(d.next(), Ok(Instruction::PAUSE));
    assert_eq!(d.offset, 2);
}

#[test]
fn byte_fields() {
    let m = ModRm::new(0b10_011_101);
    assert_eq!((m.md, m.reg, m.rm), (2, 3, 5));
    assert!(m.is_memory());
    assert!(!m.has_sib());
    assert_eq!(m.disp_size(), 4);
    assert!(ModRm::new(0b00_000_101).is_rip_relative());
    let s = Sib::new(0b11_010_001);
    assert_eq!((s.scale, s.index, s.base), (3, 2, 1));
    assert_eq!(s.scale_factor(), 8);
    assert_eq!(s.index_register(true), Some(Register::R10));
    assert_eq!(Sib::new(0b00_100_101).index_register(false), None);
    assert_eq!(Sib::new(0b00_100_101).base_register(0, false), None);
    let rex = Rex(0x4d);
    assert!(rex.w() && rex.r() && !rex.x() && rex.b());
    assert_eq!(ConditionCode::new(0xF), Some(ConditionCode::G));
    assert_eq!(ConditionCode::new(0x10), None);
}

#[test]
fn decodes_port_input_and_output() {
    let bytes = [0xE4, 0x60, 0xE6, 0x12, 0xE7, 0x80, 0xEC, 0xEE];
    let mut d = Disassembler::new(&bytes);
    assert_eq!(
        d.next(),
        Ok(Instruction::IN { dst: RAX, port: Operand::ImmediateValue(ImmediateValue::I8(0x60)) })
    );
    assert_eq!(
        d.next(),
        Ok(Instruction::OUT { src: RAX, port: Operand::ImmediateValue(ImmediateValue::I8(0x12)) })
    );
    assert_eq!(d.offset, 4);
    assert_eq!(
        d.next(),
        Ok(Instruction::OUT {
            src: RAX,
            port: Operand::ImmediateValue(ImmediateValue::I8(0x80u8 as i8))
        })
    );
    assert_eq!(d.next(), Ok(Instruction::IN { dst: RAX, port: reg(RDX) }));
    assert_eq!(d.next(), Ok(Instruction::OUT { src: RAX, port: reg(RDX) }));
    assert_eq!(d.offset, bytes.len());
}
