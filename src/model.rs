//! The mathematical model of a CHIP-8 machine and of one instruction step.
//!
//! RAM addresses and the program counter live in the 12-bit address space:
//! every address the machine forms is reduced modulo 4096, so no access can
//! leave RAM.

use vstd::prelude::*;
use crate::instructions::{decoded, Instruction};
use crate::input::{highest_key, key_down, Input};

verus! {

/// Bytes of RAM.
pub const MEM_SIZE: usize = 4096;

/// Capacity of the return-address stack.
pub const STACK_SIZE: usize = 1024;

/// Where a program is loaded, and where execution starts.
pub const PROGMEM_START: usize = 0x200;

/// Where the font is loaded.
pub const FONTMEM_START: usize = 0x000;

/// Bytes of font the machine installs.
pub const FONT_SIZE: usize = 80;

/// Columns of the display.
pub const DISPLAY_WIDTH: usize = 64;

/// Rows of the display.
pub const DISPLAY_HEIGHT: usize = 32;

/// Why a step could not execute the instruction at the program counter.
#[derive(Debug, Clone, Copy, PartialEq, Eq, Structural)]
pub enum StepError {
    /// The opcode encodes no known instruction.
    Decode(u16),
    /// RET with an empty return stack.
    StackUnderflow(u16),
    /// CALL with a full return stack.
    StackOverflow(u16),
}

/// Why a program could not be loaded.
#[derive(Debug, Clone, Copy, PartialEq, Eq, Structural)]
pub enum LoadError {
    /// The program, of this many bytes, does not fit between 0x200 and the
    /// end of RAM.
    RomTooLarge(usize),
}

/// The whole visible state of a machine.
#[verifier::ext_equal]
pub struct MachineState {
    /// V0..VF.
    pub v: Seq<u8>,
    /// The index register.
    pub i: u16,
    /// The program counter.
    pub pc: int,
    /// The number of return addresses on the stack.
    pub sp: int,
    /// The return-address stack.
    pub stack: Seq<u16>,
    /// The delay timer.
    pub dt: u8,
    /// The sound timer.
    pub st: u8,
    /// RAM.
    pub ram: Seq<u8>,
    /// The display, row by row; `true` is a lit pixel.
    pub vram: Seq<Seq<bool>>,
    /// Keys held now, one bit per key.
    pub keys: u16,
    /// Keys held at the end of the last step.
    pub prev_keys: u16,
    /// Whether a key was released since the last step.
    pub key_released: bool,
}

/// Reduces an address into the 12-bit address space.
pub open spec fn wrap_addr(a: int) -> int {
    a % 4096
}

/// A display with every pixel off.
pub open spec fn blank_screen() -> Seq<Seq<bool>> {
    Seq::new(32, |y: int| Seq::new(64, |x: int| false))
}

impl MachineState {
    /// Sizes of every array, and every address in range.
    pub open spec fn wf(self) -> bool {
        &&& self.v.len() == 16
        &&& self.ram.len() == 4096
        &&& self.stack.len() == 1024
        &&& self.vram.len() == 32
        &&& forall|y: int| 0 <= y < 32 ==> (#[trigger] self.vram[y]).len() == 64
        &&& 0 <= self.pc < 4096
        &&& 0 <= self.sp <= 1024
        &&& forall|k: int| 0 <= k < 1024 ==> (#[trigger] self.stack[k]) < 4096
    }

    /// The same state with `Vx` set to `val`.
    pub open spec fn set_reg(self, x: int, val: u8) -> MachineState {
        MachineState { v: self.v.update(x, val), ..self }
    }

    /// The same state with the flag register VF set to `val`.
    pub open spec fn set_flag(self, val: u8) -> MachineState {
        self.set_reg(15, val)
    }

    /// The same state with the program counter at `pc`, wrapped into RAM.
    pub open spec fn jump(self, pc: int) -> MachineState {
        MachineState { pc: wrap_addr(pc), ..self }
    }

    /// Skips the next instruction when `cond` holds.
    pub open spec fn skip_if(self, cond: bool) -> MachineState {
        if cond {
            self.jump(self.pc + 2)
        } else {
            self
        }
    }

    /// The opcode at the program counter, high byte first.
    pub open spec fn opcode(self) -> u16 {
        (self.ram[self.pc] as int * 256 + self.ram[wrap_addr(self.pc + 1)] as int) as u16
    }
}

/// The machine right after construction: all zero but the program counter.
pub open spec fn initial_state() -> MachineState {
    MachineState {
        v: Seq::new(16, |r: int| 0u8),
        i: 0,
        pc: 0x200,
        sp: 0,
        stack: Seq::new(1024, |k: int| 0u16),
        dt: 0,
        st: 0,
        ram: Seq::new(4096, |a: int| 0u8),
        vram: blank_screen(),
        keys: 0,
        prev_keys: 0,
        key_released: false,
    }
}

/// Bit `c` of a sprite row, counted from the most significant bit.
pub open spec fn sprite_bit(row: u8, c: int) -> bool {
    (row >> ((7 - c) as u8)) & 1u8 == 1u8
}

/// Whether the sprite of height `n` read from RAM at `i` and placed with its
/// top-left corner at `(sx, sy)` covers pixel `(px, py)`. Pixels past the
/// right or bottom edge are clipped, since the display has no such cells.
pub open spec fn sprite_covers(ram: Seq<u8>, i: u16, n: int, sx: int, sy: int, py: int, px: int) -> bool {
    &&& sy <= py < sy + n
    &&& sx <= px < sx + 8
    &&& sprite_bit(ram[wrap_addr(i + (py - sy))], px - sx)
}

/// The display after XOR-drawing the sprite.
pub open spec fn drawn_screen(s: MachineState, n: int, sx: int, sy: int) -> Seq<Seq<bool>> {
    Seq::new(
        32,
        |py: int| Seq::new(64, |px: int| s.vram[py][px] != sprite_covers(s.ram, s.i, n, sx, sy, py, px)),
    )
}

/// Whether drawing the sprite turns off a lit pixel.
pub open spec fn collides(s: MachineState, n: int, sx: int, sy: int) -> bool {
    exists|py: int, px: int|
        0 <= py < 32 && 0 <= px < 64 && #[trigger] sprite_covers(s.ram, s.i, n, sx, sy, py, px)
            && s.vram[py][px]
}

/// DRW: clear VF, then XOR the sprite at (Vx mod 64, Vy mod 32) and set VF
/// when a lit pixel was turned off.
pub open spec fn draw(s: MachineState, x: int, y: int, n: int) -> MachineState {
    let s0 = s.set_flag(0);
    let sx = s0.v[x] as int % 64;
    let sy = s0.v[y] as int % 32;
    MachineState {
        vram: drawn_screen(s0, n, sx, sy),
        ..s0.set_flag(if collides(s0, n, sx, sy) { 1 } else { 0 })
    }
}

/// RAM after storing V0..=Vx at I, I+1, ...
pub open spec fn stored_ram(s: MachineState, x: int) -> Seq<u8> {
    Seq::new(
        4096,
        |a: int|
            if wrap_addr(a - s.i) <= x {
                s.v[wrap_addr(a - s.i)]
            } else {
                s.ram[a]
            },
    )
}

/// V registers after loading V0..=Vx from I, I+1, ...
pub open spec fn loaded_regs(s: MachineState, x: int) -> Seq<u8> {
    Seq::new(16, |r: int| if r <= x { s.ram[wrap_addr(s.i + r)] } else { s.v[r] })
}

/// RAM after writing the three decimal digits of `val` at I, I+1, I+2.
pub open spec fn bcd_ram(s: MachineState, val: u8) -> Seq<u8> {
    s.ram.update(wrap_addr(s.i as int), val / 100).update(
        wrap_addr(s.i + 1),
        (val / 10) % 10,
    ).update(wrap_addr(s.i + 2), val % 10)
}

/// I advanced by `k`, wrapping at 16 bits.
pub open spec fn index_plus(s: MachineState, k: int) -> u16 {
    ((s.i + k) % 65536) as u16
}

/// What an instruction does to the machine, before the program counter moves
/// on to the next instruction. `random` is the byte drawn for RND.
pub open spec fn effect(s: MachineState, ins: Instruction, random: u8) -> MachineState {
    match ins {
        Instruction::Unknown | Instruction::Sys(_) => s,
        Instruction::Cls => MachineState { vram: blank_screen(), ..s },
        Instruction::Ret => MachineState { sp: s.sp - 1, pc: s.stack[s.sp - 1] as int, ..s },
        Instruction::Jump(a) => s.jump(a - 2),
        // The step still adds 2 afterwards, so this lands on addr + V0 + 2.
        Instruction::JumpWithOffset(a) => s.jump(a + s.v[0]),
        Instruction::Call(a) => MachineState {
            stack: s.stack.update(s.sp, s.pc as u16),
            sp: s.sp + 1,
            ..s
        }.jump(a - 2),
        Instruction::SkipEqualImm(x, kk) => s.skip_if(s.v[x as int] == kk),
        Instruction::SkipNotEqualImm(x, kk) => s.skip_if(s.v[x as int] != kk),
        Instruction::SkipEqualReg(x, y) => s.skip_if(s.v[x as int] == s.v[y as int]),
        Instruction::SkipNotEqualReg(x, y) => s.skip_if(s.v[x as int] != s.v[y as int]),
        Instruction::LoadImm(x, kk) => s.set_reg(x as int, kk),
        Instruction::LoadReg(x, y) => s.set_reg(x as int, s.v[y as int]),
        Instruction::LoadAddress(a) => MachineState { i: a as u16, ..s },
        Instruction::SetSpriteLoc(x) => MachineState { i: (s.v[x as int] * 5) as u16, ..s },
        Instruction::StoreBCD(x) => MachineState { ram: bcd_ram(s, s.v[x as int]), ..s },
        Instruction::StoreRegisters(x) => MachineState {
            ram: stored_ram(s, x as int),
            i: index_plus(s, x + 1),
            ..s
        },
        Instruction::ReadRegisters(x) => MachineState {
            v: loaded_regs(s, x as int),
            i: index_plus(s, x + 1),
            ..s
        },
        Instruction::AddImm(x, kk) => s.set_reg(x as int, ((s.v[x as int] + kk) % 256) as u8),
        Instruction::AddReg(x, y) => {
            let sum = s.v[x as int] + s.v[y as int];
            s.set_reg(x as int, (sum % 256) as u8).set_flag(if sum > 255 { 1 } else { 0 })
        },
        Instruction::AddIndex(x) => MachineState { i: index_plus(s, s.v[x as int] as int), ..s },
        Instruction::SubReg(x, y) => {
            let (vx, vy) = (s.v[x as int], s.v[y as int]);
            s.set_reg(x as int, ((vx - vy) % 256) as u8).set_flag(if vx >= vy { 1 } else { 0 })
        },
        Instruction::SubNReg(x, y) => {
            let (vx, vy) = (s.v[x as int], s.v[y as int]);
            s.set_reg(x as int, ((vy - vx) % 256) as u8).set_flag(if vy >= vx { 1 } else { 0 })
        },
        Instruction::OrReg(x, y) => s.set_reg(x as int, s.v[x as int] | s.v[y as int]).set_flag(0),
        Instruction::AndReg(x, y) => s.set_reg(x as int, s.v[x as int] & s.v[y as int]).set_flag(0),
        Instruction::XorReg(x, y) => s.set_reg(x as int, s.v[x as int] ^ s.v[y as int]).set_flag(0),
        Instruction::ShiftRightReg(x, y) => {
            let vy = s.v[y as int];
            s.set_reg(x as int, vy / 2).set_flag(vy % 2)
        },
        Instruction::ShiftLeftReg(x, y) => {
            let vy = s.v[y as int];
            s.set_reg(x as int, ((vy * 2) % 256) as u8).set_flag(vy / 128)
        },
        Instruction::RandAndImmediate(x, kk) => s.set_reg(x as int, random & kk).set_flag(0),
        Instruction::Draw(x, y, n) => draw(s, x as int, y as int, n as int),
        Instruction::SkipIfKeyPressed(x) => s.skip_if(key_down(s.keys, s.v[x as int])),
        Instruction::SkipIfKeyNotPressed(x) => s.skip_if(!key_down(s.keys, s.v[x as int])),
        Instruction::StoreKeypress(x) => if s.key_released {
            s.set_reg(x as int, highest_key(s.prev_keys & !s.keys))
        } else {
            // repeat this instruction on the next step
            s.jump(s.pc - 2)
        },
        Instruction::ReadDelayTimer(x) => s.set_reg(x as int, s.dt),
        Instruction::WriteDelayTimer(x) => MachineState { dt: s.v[x as int], ..s },
        Instruction::WriteSoundTimer(x) => MachineState { st: s.v[x as int], ..s },
    }
}

/// The bookkeeping that closes every executed step: move to the next
/// instruction, remember the keys, and forget the key release.
pub open spec fn finish_step(s: MachineState) -> MachineState {
    MachineState { pc: wrap_addr(s.pc + 2), prev_keys: s.keys, key_released: false, ..s }
}

/// The error a step reports for instruction `ins` at opcode `op`, if any.
pub open spec fn step_error(s: MachineState, op: u16, ins: Instruction) -> Option<StepError> {
    match ins {
        Instruction::Unknown => Some(StepError::Decode(op)),
        Instruction::Ret => if s.sp == 0 {
            Some(StepError::StackUnderflow(op))
        } else {
            None
        },
        Instruction::Call(_) => if s.sp >= 1024 {
            Some(StepError::StackOverflow(op))
        } else {
            None
        },
        _ => None,
    }
}

/// One step: fetch and decode the opcode at the program counter, then either
/// report an error and leave the machine as it was, or execute it and return
/// the opcode.
pub open spec fn step(s: MachineState, random: u8) -> (Result<u16, StepError>, MachineState) {
    let op = s.opcode();
    let ins = decoded(op);
    match step_error(s, op, ins) {
        Some(e) => (Err(e), s),
        None => (Ok(op), finish_step(effect(s, ins, random))),
    }
}

/// `ram` with `bytes` written from address `start` on.
pub open spec fn copied_into(ram: Seq<u8>, start: int, bytes: Seq<u8>) -> Seq<u8> {
    Seq::new(
        ram.len(),
        |a: int|
            if start <= a < start + bytes.len() {
                bytes[a - start]
            } else {
                ram[a]
            },
    )
}

/// A keypad event: a press sets the key's bit, a release clears it and
/// records that a key was released. The bitmap of the last step stays.
pub open spec fn apply_input(s: MachineState, input: Input) -> MachineState {
    match input {
        Input::Pressed(k) => MachineState { keys: s.keys | (1u16 << (k as u16)), ..s },
        Input::Unpressed(k) => MachineState {
            keys: s.keys & !(1u16 << (k as u16)),
            key_released: true,
            ..s
        },
    }
}

/// One frame: each nonzero timer counts down by one.
pub open spec fn frame_tick(s: MachineState) -> MachineState {
    MachineState {
        dt: if s.dt > 0 { (s.dt - 1) as u8 } else { 0 },
        st: if s.st > 0 { (s.st - 1) as u8 } else { 0 },
        ..s
    }
}

} // verus!
