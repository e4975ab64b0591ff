//! The CHIP-8 instruction set and its decoder.

use vstd::prelude::*;

verus! {

/// A 12-bit RAM address taken from an opcode.
pub type Address = usize;

/// An 8-bit immediate taken from an opcode.
pub type Immediate = u8;

/// The index of a V register, `0..16`.
pub type Register = usize;

/// One decoded CHIP-8 instruction.
#[derive(Debug, Clone, Copy, PartialEq, Eq, Structural)]
pub enum Instruction {
    // emulator special
    Unknown,
    // system
    Sys(Address),
    Cls,
    Ret,
    Jump(Address),
    JumpWithOffset(Address),
    Call(Address),
    // branching
    SkipEqualImm(Register, Immediate),
    SkipEqualReg(Register, Register),
    SkipNotEqualImm(Register, Immediate),
    SkipNotEqualReg(Register, Register),
    // loads
    LoadImm(Register, Immediate),
    LoadReg(Register, Register),
    LoadAddress(Address),
    SetSpriteLoc(Register),
    StoreBCD(Register),
    StoreRegisters(Register),
    ReadRegisters(Register),
    // arithmetic
    AddImm(Register, Immediate),
    AddReg(Register, Register),
    AddIndex(Register),
    SubReg(Register, Register),
    SubNReg(Register, Register),
    // logic
    OrReg(Register, Register),
    AndReg(Register, Register),
    XorReg(Register, Register),
    ShiftRightReg(Register, Register),
    ShiftLeftReg(Register, Register),
    // special
    RandAndImmediate(Register, Immediate),
    Draw(Register, Register, Immediate),
    SkipIfKeyPressed(Register),
    SkipIfKeyNotPressed(Register),
    StoreKeypress(Register),
    // timers
    ReadDelayTimer(Register),
    WriteDelayTimer(Register),
    WriteSoundTimer(Register),
}

/// The top nibble of an opcode: it selects the instruction group.
pub open spec fn op_group(w: u16) -> int {
    w as int / 4096
}

/// The low twelve bits of an opcode.
pub open spec fn op_addr(w: u16) -> int {
    w as int % 4096
}

/// The second nibble of an opcode.
pub open spec fn op_x(w: u16) -> int {
    (w as int / 256) % 16
}

/// The third nibble of an opcode.
pub open spec fn op_y(w: u16) -> int {
    (w as int / 16) % 16
}

/// The low nibble of an opcode.
pub open spec fn op_n(w: u16) -> int {
    w as int % 16
}

/// The low byte of an opcode.
pub open spec fn op_kk(w: u16) -> int {
    w as int % 256
}

/// The instruction that opcode `w` encodes; `Unknown` where it encodes none.
pub open spec fn decoded(w: u16) -> Instruction {
    let addr = op_addr(w) as usize;
    let x = op_x(w) as usize;
    let y = op_y(w) as usize;
    let kk = op_kk(w) as u8;
    let n = op_n(w);
    let g = op_group(w);
    if g == 0x0 {
        if addr == 0x0E0 {
            Instruction::Cls
        } else if addr == 0x0EE {
            Instruction::Ret
        } else {
            Instruction::Sys(addr)
        }
    } else if g == 0x1 {
        Instruction::Jump(addr)
    } else if g == 0x2 {
        Instruction::Call(addr)
    } else if g == 0x3 {
        Instruction::SkipEqualImm(x, kk)
    } else if g == 0x4 {
        Instruction::SkipNotEqualImm(x, kk)
    } else if g == 0x5 {
        Instruction::SkipEqualReg(x, y)
    } else if g == 0x6 {
        Instruction::LoadImm(x, kk)
    } else if g == 0x7 {
        Instruction::AddImm(x, kk)
    } else if g == 0x8 {
        if n == 0x0 {
            Instruction::LoadReg(x, y)
        } else if n == 0x1 {
            Instruction::OrReg(x, y)
        } else if n == 0x2 {
            Instruction::AndReg(x, y)
        } else if n == 0x3 {
            Instruction::XorReg(x, y)
        } else if n == 0x4 {
            Instruction::AddReg(x, y)
        } else if n == 0x5 {
            Instruction::SubReg(x, y)
        } else if n == 0x6 {
            Instruction::ShiftRightReg(x, y)
        } else if n == 0x7 {
            Instruction::SubNReg(x, y)
        } else if n == 0xE {
            Instruction::ShiftLeftReg(x, y)
        } else {
            Instruction::Unknown
        }
    } else if g == 0x9 {
        Instruction::SkipNotEqualReg(x, y)
    } else if g == 0xA {
        Instruction::LoadAddress(addr)
    } else if g == 0xB {
        Instruction::JumpWithOffset(addr)
    } else if g == 0xC {
        Instruction::RandAndImmediate(x, kk)
    } else if g == 0xD {
        Instruction::Draw(x, y, n as u8)
    } else if g == 0xE {
        if kk == 0x9E {
            Instruction::SkipIfKeyPressed(x)
        } else if kk == 0xA1 {
            Instruction::SkipIfKeyNotPressed(x)
        } else {
            Instruction::Unknown
        }
    } else if kk == 0x07 {
        Instruction::ReadDelayTimer(x)
    } else if kk == 0x0A {
        Instruction::StoreKeypress(x)
    } else if kk == 0x15 {
        Instruction::WriteDelayTimer(x)
    } else if kk == 0x18 {
        Instruction::WriteSoundTimer(x)
    } else if kk == 0x1E {
        Instruction::AddIndex(x)
    } else if kk == 0x29 {
        Instruction::SetSpriteLoc(x)
    } else if kk == 0x33 {
        Instruction::StoreBCD(x)
    } else if kk == 0x55 {
        Instruction::StoreRegisters(x)
    } else if kk == 0x65 {
        Instruction::ReadRegisters(x)
    } else {
        Instruction::Unknown
    }
}

impl Instruction {
    /// Every register index is below 16, every address below 4096 and every
    /// sprite height below 16: what the decoder produces.
    pub open spec fn wf(self) -> bool {
        match self {
            Instruction::Unknown | Instruction::Cls | Instruction::Ret => true,
            Instruction::Sys(a) | Instruction::Jump(a) | Instruction::JumpWithOffset(a)
            | Instruction::Call(a) | Instruction::LoadAddress(a) => a < 4096,
            Instruction::SkipEqualImm(x, _) | Instruction::SkipNotEqualImm(x, _)
            | Instruction::LoadImm(x, _) | Instruction::AddImm(x, _)
            | Instruction::RandAndImmediate(x, _) => x < 16,
            Instruction::SkipEqualReg(x, y) | Instruction::SkipNotEqualReg(x, y)
            | Instruction::LoadReg(x, y) | Instruction::AddReg(x, y) | Instruction::SubReg(x, y)
            | Instruction::SubNReg(x, y) | Instruction::OrReg(x, y) | Instruction::AndReg(x, y)
            | Instruction::XorReg(x, y) | Instruction::ShiftRightReg(x, y)
            | Instruction::ShiftLeftReg(x, y) => x < 16 && y < 16,
            Instruction::Draw(x, y, n) => x < 16 && y < 16 && n < 16,
            Instruction::SetSpriteLoc(x) | Instruction::StoreBCD(x)
            | Instruction::StoreRegisters(x) | Instruction::ReadRegisters(x)
            | Instruction::SkipIfKeyPressed(x) | Instruction::SkipIfKeyNotPressed(x)
            | Instruction::StoreKeypress(x) | Instruction::ReadDelayTimer(x) | Instruction::AddIndex(x)
            | Instruction::WriteDelayTimer(x) | Instruction::WriteSoundTimer(x) => x < 16,
        }
    }
}

/// Every decoded instruction is well formed.
pub proof fn lemma_decoded_wf(w: u16)
    ensures
        decoded(w).wf(),
{
}

/// Decodes one opcode into an instruction.
pub fn decode(opcode: u16) -> (r: Instruction)
    ensures
        r == decoded(opcode),
        r.wf(),
{
    let inst_word: u8 = ((opcode & 0xF000) >> 12) as u8;
    let addr: usize = (opcode & 0x0FFF) as usize;
    let nibble: u8 = (opcode & 0x000F) as u8;
    let imm: Immediate = (opcode & 0x00FF) as u8;
    let regx: Register = ((opcode & 0x0F00) >> 8) as usize;
    let regy: Register = ((opcode & 0x00F0) >> 4) as usize;
    assert(((opcode & 0xF000) >> 12) as int == opcode as int / 4096) by (bit_vector);
    assert((opcode & 0x0FFF) as int == opcode as int % 4096) by (bit_vector);
    assert((opcode & 0x000F) as int == opcode as int % 16) by (bit_vector);
    assert((opcode & 0x00FF) as int == opcode as int % 256) by (bit_vector);
    assert(((opcode & 0x0F00) >> 8) as int == (opcode as int / 256) % 16) by (bit_vector);
    assert(((opcode & 0x00F0) >> 4) as int == (opcode as int / 16) % 16) by (bit_vector);
    match inst_word {
        0x0 => {
            // SYS, CLS, or RET instruction
            match addr {
                0x0E0 => Instruction::Cls,
                0x0EE => Instruction::Ret,
                _ => Instruction::Sys(addr),
            }
        },
        0x1 => Instruction::Jump(addr),
        0x2 => Instruction::Call(addr),
        0x3 => Instruction::SkipEqualImm(regx, imm),
        0x4 => Instruction::SkipNotEqualImm(regx, imm),
        0x5 => Instruction::SkipEqualReg(regx, regy),
        0x6 => Instruction::LoadImm(regx, imm),
        0x7 => Instruction::AddImm(regx, imm),
        0x8 => {
            // register-to-register loads, logic, arithmetic and shifts
            match nibble {
                0x0 => Instruction::LoadReg(regx, regy),
                0x1 => Instruction::OrReg(regx, regy),
                0x2 => Instruction::AndReg(regx, regy),
                0x3 => Instruction::XorReg(regx, regy),
                0x4 => Instruction::AddReg(regx, regy),
                0x5 => Instruction::SubReg(regx, regy),
                0x6 => Instruction::ShiftRightReg(regx, regy),
                0x7 => Instruction::SubNReg(regx, regy),
                0xE => Instruction::ShiftLeftReg(regx, regy),
                _ => Instruction::Unknown,
            }
        },
        0x9 => Instruction::SkipNotEqualReg(regx, regy),
        0xA => Instruction::LoadAddress(addr),
        0xB => Instruction::JumpWithOffset(addr),
        0xC => Instruction::RandAndImmediate(regx, imm),
        0xD => Instruction::Draw(regx, regy, nibble),
        0xE => {
            // key skips
            match imm {
                0x9E => Instruction::SkipIfKeyPressed(regx),
                0xA1 => Instruction::SkipIfKeyNotPressed(regx),
                _ => Instruction::Unknown,
            }
        },
        _ => {
            // timers, keypad wait, index, BCD, register store and load
            match imm {
                0x07 => Instruction::ReadDelayTimer(regx),
                0x0A => Instruction::StoreKeypress(regx),
                0x15 => Instruction::WriteDelayTimer(regx),
                0x18 => Instruction::WriteSoundTimer(regx),
                0x1E => Instruction::AddIndex(regx),
                0x29 => Instruction::SetSpriteLoc(regx),
                0x33 => Instruction::StoreBCD(regx),
                0x55 => Instruction::StoreRegisters(regx),
                0x65 => Instruction::ReadRegisters(regx),
                _ => Instruction::Unknown,
            }
        },
    }
}

} // verus!
