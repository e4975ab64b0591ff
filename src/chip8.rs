//! The executable machine: registers, memory, keypad state, and the
//! operations a host drives it with.

use vstd::prelude::*;
use crate::input::{greatest_key, is_key_down, Input};
use crate::instructions::{decode, decoded, Instruction};
use crate::model::{
    apply_input, bcd_ram, blank_screen, collides, draw, drawn_screen, effect, frame_tick,
    initial_state, loaded_regs, sprite_covers, step, step_error, stored_ram, wrap_addr,
    copied_into, LoadError, MachineState, StepError, FONT_SIZE, FONTMEM_START, PROGMEM_START,
    DISPLAY_HEIGHT, DISPLAY_WIDTH, MEM_SIZE, STACK_SIZE,
};

verus! {

/// The hexadecimal digit glyphs 0..F, five rows of one byte each.
pub const DEFAULT_FONT: [u8; 80] = [
    0xF0, 0x90, 0x90, 0x90, 0xF0,  // 0
    0x20, 0x60, 0x20, 0x20, 0x70,  // 1
    0xF0, 0x10, 0xF0, 0x80, 0xF0,  // 2
    0xF0, 0x10, 0xF0, 0x10, 0xF0,  // 3
    0x90, 0x90, 0xF0, 0x10, 0x10,  // 4
    0xF0, 0x80, 0xF0, 0x10, 0xF0,  // 5
    0xF0, 0x80, 0xF0, 0x90, 0xF0,  // 6
    0xF0, 0x10, 0x20, 0x40, 0x40,  // 7
    0xF0, 0x90, 0xF0, 0x90, 0xF0,  // 8
    0xF0, 0x90, 0xF0, 0x10, 0xF0,  // 9
    0xF0, 0x90, 0xF0, 0x90, 0x90,  // A
    0xE0, 0x90, 0xE0, 0x90, 0xE0,  // B
    0xF0, 0x80, 0x80, 0x80, 0xF0,  // C
    0xE0, 0x90, 0x90, 0x90, 0xE0,  // D
    0xF0, 0x80, 0xF0, 0x80, 0xF0,  // E
    0xF0, 0x80, 0xF0, 0x80, 0x80,  // F
];

/// The display as rows of pixels.
pub open spec fn screen_view(d: [[bool; DISPLAY_WIDTH]; DISPLAY_HEIGHT]) -> Seq<Seq<bool>> {
    Seq::new(32, |y: int| d[y]@)
}

/// Instructions that move the program counter or clear the display.
pub open spec fn is_flow(ins: Instruction) -> bool {
    match ins {
        Instruction::Unknown | Instruction::Sys(_) | Instruction::Cls | Instruction::Ret
        | Instruction::Jump(_) | Instruction::JumpWithOffset(_) | Instruction::Call(_)
        | Instruction::SkipEqualImm(_, _) | Instruction::SkipNotEqualImm(_, _)
        | Instruction::SkipEqualReg(_, _) | Instruction::SkipNotEqualReg(_, _)
        | Instruction::SkipIfKeyPressed(_) | Instruction::SkipIfKeyNotPressed(_)
        | Instruction::StoreKeypress(_) => true,
        _ => false,
    }
}

/// Instructions that compute into the V registers.
pub open spec fn is_alu(ins: Instruction) -> bool {
    match ins {
        Instruction::LoadImm(_, _) | Instruction::LoadReg(_, _) | Instruction::ReadDelayTimer(_)
        | Instruction::AddImm(_, _) | Instruction::AddReg(_, _) | Instruction::SubReg(_, _)
        | Instruction::SubNReg(_, _) | Instruction::ShiftRightReg(_, _)
        | Instruction::ShiftLeftReg(_, _) | Instruction::OrReg(_, _) | Instruction::AndReg(_, _)
        | Instruction::XorReg(_, _) | Instruction::RandAndImmediate(_, _) => true,
        _ => false,
    }
}

/// Whether cell `(py, px)` comes before the sprite pixel at row `row`,
/// column `col` in drawing order.
pub open spec fn drawn_before(sx: int, sy: int, row: int, col: int, py: int, px: int) -> bool {
    py - sy < row || (py - sy == row && px - sx < col)
}

/// Whether some pixel already drawn turned off a lit cell.
pub open spec fn hit_before(s: MachineState, n: int, sx: int, sy: int, row: int, col: int) -> bool {
    exists|py: int, px: int|
        0 <= py < 32 && 0 <= px < 64 && #[trigger] sprite_covers(s.ram, s.i, n, sx, sy, py, px)
            && drawn_before(sx, sy, row, col, py, px) && s.vram[py][px]
}

/// CHIP-8 registers.
struct Registers {
    /// The 16 8-bit general-purpose registers.
    v: [u8; 16],
    /// The delay timer; counts down once per frame.
    dt: u8,
    /// The sound timer; counts down once per frame.
    st: u8,
    /// The 16-bit index register.
    i: u16,
    /// The program counter, always below 4096.
    pc: u16,
    /// The number of return addresses on the stack.
    sp: usize,
}

/// CHIP-8 memory: RAM, the return-address stack and the display.
pub struct Memory {
    /// The 4 KiB of RAM.
    ram: [u8; MEM_SIZE],
    /// Return addresses of subroutine calls.
    stack: [u16; STACK_SIZE],
    /// The 64x32 monochrome display.
    vram: [[bool; DISPLAY_WIDTH]; DISPLAY_HEIGHT],
}

/// The keypad as the machine sees it.
pub struct InputState {
    /// Keys held now.
    curr: u16,
    /// Keys held at the end of the last step.
    prev: u16,
    /// Whether a key was released since the last step.
    key_just_released: bool,
}

/// A CHIP-8 machine.
pub struct Chip8 {
    registers: Registers,
    /// RAM, the stack and the display.
    pub memory: Memory,
    input: InputState,
}

impl View for Chip8 {
    type V = MachineState;

    closed spec fn view(&self) -> MachineState {
        MachineState {
            v: self.registers.v@,
            i: self.registers.i,
            pc: self.registers.pc as int,
            sp: self.registers.sp as int,
            stack: self.memory.stack@,
            dt: self.registers.dt,
            st: self.registers.st,
            ram: self.memory.ram@,
            vram: screen_view(self.memory.vram),
            keys: self.input.curr,
            prev_keys: self.input.prev,
            key_released: self.input.key_just_released,
        }
    }
}

impl Chip8 {
    /// The machine's invariant.
    pub open spec fn wf(&self) -> bool {
        self@.wf()
    }

    /// A machine with every register, RAM byte, stack entry, pixel and key
    /// cleared, and the program counter at 0x200.
    pub fn new() -> (r: Self)
        ensures
            r@ == initial_state(),
            r.wf(),
    {
        let r = Chip8 {
            registers: Registers { v: [0;16], dt: 0, st: 0, i: 0, pc: 0x200, sp: 0 },
            memory: Memory {
                ram: [0;MEM_SIZE],
                stack: [0;STACK_SIZE],
                vram: [[false;DISPLAY_WIDTH];DISPLAY_HEIGHT],
            },
            input: InputState { curr: 0, prev: 0, key_just_released: false },
        };
        proof {
            assert(r@.vram =~~= blank_screen());
            assert(r@ =~~= initial_state());
        }
        r
    }

    /// Copies a program into RAM from 0x200 on. A program longer than the
    /// 3584 bytes from there to the end of RAM is refused, and nothing is
    /// written.
    pub fn load_rom(&mut self, rom: &[u8]) -> (r: Result<(), LoadError>)
        requires
            old(self).wf(),
        ensures
            final(self).wf(),
            rom@.len() > MEM_SIZE - PROGMEM_START ==> r == Err::<(), LoadError>(
                LoadError::RomTooLarge(rom@.len() as usize),
            ) && final(self)@ == old(self)@,
            rom@.len() <= MEM_SIZE - PROGMEM_START ==> r is Ok && final(self)@ == (MachineState {
                ram: copied_into(old(self)@.ram, PROGMEM_START as int, rom@),
                ..old(self)@
            }),
    {
        if rom.len() > MEM_SIZE - PROGMEM_START {
            return Err(LoadError::RomTooLarge(rom.len()));
        }
        self.copy_to_ram(PROGMEM_START, rom, rom.len());
        Ok(())
    }

    /// Installs a font at 0x000: the first 80 bytes of `font`, or all of it
    /// if shorter; `DEFAULT_FONT` when none is given.
    pub fn load_font(&mut self, font: Option<&[u8]>)
        requires
            old(self).wf(),
        ensures
            final(self).wf(),
            ({
                let bytes = match font {
                    Some(b) => b@,
                    None => DEFAULT_FONT@,
                };
                let n = if bytes.len() < FONT_SIZE { bytes.len() as int } else { FONT_SIZE as int };
                final(self)@ == (MachineState {
                    ram: copied_into(old(self)@.ram, FONTMEM_START as int, bytes.take(n)),
                    ..old(self)@
                })
            }),
    {
        let bytes: &[u8] = match font {
            Some(b) => b,
            None => DEFAULT_FONT.as_slice(),
        };
        let n: usize = if bytes.len() < FONT_SIZE { bytes.len() } else { FONT_SIZE };
        self.copy_to_ram(FONTMEM_START, bytes, n);
        proof {
            assert(bytes@.take(n as int).len() == n);
        }
    }

    /// Writes the first `n` bytes of `bytes` to RAM from `start` on.
    fn copy_to_ram(&mut self, start: usize, bytes: &[u8], n: usize)
        requires
            old(self).wf(),
            n <= bytes@.len(),
            start + n <= MEM_SIZE,
        ensures
            final(self).wf(),
            final(self)@ == (MachineState {
                ram: copied_into(old(self)@.ram, start as int, bytes@.take(n as int)),
                ..old(self)@
            }),
    {
        let ghost s = self@;
        let mut k: usize = 0;
        while k < n
            invariant
                k <= n,
                n <= bytes@.len(),
                start + n <= MEM_SIZE,
                self@ == (MachineState { ram: self@.ram, ..s }),
                self@.wf(),
                self@.ram =~= copied_into(s.ram, start as int, bytes@.take(k as int)),
            decreases n - k,
        {
            self.memory.ram[start + k] = bytes[k];
            k = k + 1;
            proof {
                assert(self@.ram =~= copied_into(s.ram, start as int, bytes@.take(k as int)));
            }
        }
        proof {
            assert(self@ =~~= (MachineState {
                ram: copied_into(s.ram, start as int, bytes@.take(n as int)),
                ..s
            }));
        }
    }

    /// Register `Vr`.
    pub fn register(&self, r: usize) -> (val: u8)
        requires
            r < 16,
        ensures
            val == self@.v[r as int],
    {
        self.registers.v[r]
    }

    /// The index register I.
    pub fn index(&self) -> (val: u16)
        ensures
            val == self@.i,
    {
        self.registers.i
    }

    /// The program counter.
    pub fn program_counter(&self) -> (val: u16)
        ensures
            val as int == self@.pc,
    {
        self.registers.pc
    }

    /// The number of return addresses on the stack.
    pub fn stack_pointer(&self) -> (val: usize)
        ensures
            val as int == self@.sp,
    {
        self.registers.sp
    }

    /// The delay timer.
    pub fn delay_timer(&self) -> (val: u8)
        ensures
            val == self@.dt,
    {
        self.registers.dt
    }

    /// The sound timer.
    pub fn sound_timer(&self) -> (val: u8)
        ensures
            val == self@.st,
    {
        self.registers.st
    }

    /// The byte at RAM address `addr`.
    pub fn ram_byte(&self, addr: usize) -> (val: u8)
        requires
            self.wf(),
            addr < MEM_SIZE,
        ensures
            val == self@.ram[addr as int],
    {
        self.memory.ram[addr]
    }

    /// Whether the tone should sound: the sound timer is nonzero.
    pub fn get_tone(&self) -> (r: bool)
        ensures
            r == (self@.st > 0),
    {
        self.registers.st > 0
    }

    /// The display.
    pub fn get_display(&self) -> (r: &[[bool; DISPLAY_WIDTH]; DISPLAY_HEIGHT])
        ensures
            screen_view(*r) == self@.vram,
    {
        &self.memory.vram
    }

    /// One frame: counts each nonzero timer down by one and hands back the
    /// display. A host calls this 60 times a second.
    pub fn do_frame(&mut self) -> (r: &[[bool; DISPLAY_WIDTH]; DISPLAY_HEIGHT])
        requires
            old(self).wf(),
        ensures
            final(self)@ == frame_tick(old(self)@),
            final(self).wf(),
            screen_view(*r) == final(self)@.vram,
    {
        // decrement ST if needed
        if self.registers.st > 0 {
            self.registers.st = self.registers.st - 1;
        }
        // decrement DT if needed
        if self.registers.dt > 0 {
            self.registers.dt = self.registers.dt - 1;
        }
        proof {
            assert(self@ =~~= frame_tick(old(self)@));
        }
        &self.memory.vram
    }

    /// Applies a keypad event.
    pub fn change_input(&mut self, input: Input)
        requires
            old(self).wf(),
            input.key() < 16,
        ensures
            final(self)@ == apply_input(old(self)@, input),
            final(self).wf(),
    {
        match input {
            Input::Pressed(key) => {
                // set the key's bit
                self.input.curr = self.input.curr | (1u16 << key as u16);
            },
            Input::Unpressed(key) => {
                // clear the key's bit
                self.input.curr = self.input.curr & !(1u16 << key as u16);
                self.input.key_just_released = true;
            },
        }
        proof {
            assert(self@ =~~= apply_input(old(self)@, input));
        }
    }

    /// The opcode at the program counter, high byte first.
    pub fn get_current_opcode(&self) -> (r: u16)
        requires
            self.wf(),
        ensures
            r == self@.opcode(),
    {
        let pc: usize = self.registers.pc as usize;
        let hi: u8 = self.memory.ram[pc];
        let lo: u8 = self.memory.ram[(pc + 1) % MEM_SIZE];
        assert(((hi as u16) << 8u16) | (lo as u16) == hi as u16 * 256 + lo as u16) by (bit_vector);
        ((hi as u16) << 8) | (lo as u16)
    }

    /// The instruction at the program counter.
    pub fn get_current_instruction(&self) -> (r: Instruction)
        requires
            self.wf(),
        ensures
            r == decoded(self@.opcode()),
    {
        decode(self.get_current_opcode())
    }

    /// Executes the instruction at the program counter, drawing a fresh
    /// random byte for RND. Returns the opcode executed, or why it could not
    /// be; on an error the machine is left as it was. A host calls this about
    /// 500 times a second.
    pub fn do_next_instruction(&mut self) -> (r: Result<u16, StepError>)
        requires
            old(self).wf(),
        ensures
            exists|random: u8| (r, final(self)@) == step(old(self)@, random),
            final(self).wf(),
    {
        let random = random_byte();
        self.do_next_instruction_with(random)
    }

    /// Executes the instruction at the program counter, with `random` as the
    /// byte that RND draws. Returns the opcode executed, or why it could not
    /// be; on an error the machine is left as it was.
    pub fn do_next_instruction_with(&mut self, random: u8) -> (r: Result<u16, StepError>)
        requires
            old(self).wf(),
        ensures
            (r, final(self)@) == step(old(self)@, random),
            final(self).wf(),
    {
        // get the current opcode for returning results
        let opcode: u16 = self.get_current_opcode();
        let ins = decode(opcode);
        match ins {
            Instruction::Unknown => {
                return Err(StepError::Decode(opcode));
            },
            Instruction::Ret => {
                if self.registers.sp == 0 {
                    return Err(StepError::StackUnderflow(opcode));
                }
            },
            Instruction::Call(_) => {
                if self.registers.sp >= STACK_SIZE {
                    return Err(StepError::StackOverflow(opcode));
                }
            },
            _ => {},
        }
        self.execute(ins, random);
        let ghost done = self@;
        // point the PC to the next instruction, remember the keys, and
        // forget the key release
        self.registers.pc = (self.registers.pc + 2) % 4096;
        self.input.prev = self.input.curr;
        self.input.key_just_released = false;
        proof {
            assert(self@ =~~= crate::model::finish_step(done));
        }
        Ok(opcode)
    }

    /// Carries out one instruction, up to but not including the move to the
    /// next one.
    fn execute(&mut self, ins: Instruction, random: u8)
        requires
            old(self).wf(),
            ins.wf(),
            step_error(old(self)@, 0, ins) is None,
        ensures
            final(self)@ == effect(old(self)@, ins, random),
            final(self).wf(),
    {
        match ins {
            Instruction::Unknown | Instruction::Sys(_) | Instruction::Cls | Instruction::Ret
            | Instruction::Jump(_) | Instruction::JumpWithOffset(_) | Instruction::Call(_)
            | Instruction::SkipEqualImm(_, _) | Instruction::SkipNotEqualImm(_, _)
            | Instruction::SkipEqualReg(_, _) | Instruction::SkipNotEqualReg(_, _)
            | Instruction::SkipIfKeyPressed(_) | Instruction::SkipIfKeyNotPressed(_)
            | Instruction::StoreKeypress(_) => self.execute_flow(ins, random),
            Instruction::LoadImm(_, _) | Instruction::LoadReg(_, _) | Instruction::ReadDelayTimer(_)
            | Instruction::AddImm(_, _) | Instruction::AddReg(_, _) | Instruction::SubReg(_, _)
            | Instruction::SubNReg(_, _) | Instruction::ShiftRightReg(_, _)
            | Instruction::ShiftLeftReg(_, _) | Instruction::OrReg(_, _) | Instruction::AndReg(_, _)
            | Instruction::XorReg(_, _) | Instruction::RandAndImmediate(_, _) => self.execute_alu(ins, random),
            _ => self.execute_memory(ins, random),
        }
    }

    /// Instructions that move the program counter or clear the display.
    #[verifier::rlimit(40)]
    fn execute_flow(&mut self, ins: Instruction, random: u8)
        requires
            old(self).wf(),
            ins.wf(),
            is_flow(ins),
            step_error(old(self)@, 0, ins) is None,
        ensures
            final(self)@ == effect(old(self)@, ins, random),
            final(self).wf(),
    {
        match ins {
            Instruction::Unknown | Instruction::Sys(_) => {    proof {
                    assert(self@ =~~= effect(old(self)@, ins, random));
                }
            },
            Instruction::Cls => {
                self.memory.vram = [[false;DISPLAY_WIDTH];DISPLAY_HEIGHT];
                proof {
                    assert(self@.vram =~~= blank_screen());
                }
                proof {
                    assert(self@ =~~= effect(old(self)@, ins, random));
                }
            },
            Instruction::Ret => {
                // pop the return address
                self.registers.sp = self.registers.sp - 1;
                self.registers.pc = self.memory.stack[self.registers.sp];
                proof {
                    assert(self@ =~~= effect(old(self)@, ins, random));
                }
            },
            Instruction::Jump(addr) => {
                // the step adds 2 afterwards
                self.registers.pc = ((addr + 4094) % 4096) as u16;
                proof {
                    assert(self@ =~~= effect(old(self)@, ins, random));
                }
            },
            Instruction::JumpWithOffset(addr) => {
                // the step still adds 2 afterwards, so this lands on
                // addr + V0 + 2, two bytes past the classic CHIP-8 target
                self.registers.pc = ((addr + self.registers.v[0] as usize) % 4096) as u16;
                proof {
                    assert(self@ =~~= effect(old(self)@, ins, random));
                }
            },
            Instruction::Call(addr) => {
                // push the current PC and jump; the step adds 2 afterwards
                self.memory.stack[self.registers.sp] = self.registers.pc;
                self.registers.sp = self.registers.sp + 1;
                self.registers.pc = ((addr + 4094) % 4096) as u16;
                proof {
                    assert(self@ =~~= effect(old(self)@, ins, random));
                }
            },
            Instruction::SkipEqualImm(reg, imm) => {
                if self.registers.v[reg] == imm {
                    self.skip_next();
                }
                proof {
                    assert(self@ =~~= effect(old(self)@, ins, random));
                }
            },
            Instruction::SkipNotEqualImm(reg, imm) => {
                if self.registers.v[reg] != imm {
                    self.skip_next();
                }
                proof {
                    assert(self@ =~~= effect(old(self)@, ins, random));
                }
            },
            Instruction::SkipEqualReg(regx, regy) => {
                if self.registers.v[regx] == self.registers.v[regy] {
                    self.skip_next();
                }
                proof {
                    assert(self@ =~~= effect(old(self)@, ins, random));
                }
            },
            Instruction::SkipNotEqualReg(regx, regy) => {
                if self.registers.v[regx] != self.registers.v[regy] {
                    self.skip_next();
                }
                proof {
                    assert(self@ =~~= effect(old(self)@, ins, random));
                }
            },
            Instruction::SkipIfKeyPressed(reg) => {
                if is_key_down(self.input.curr, self.registers.v[reg]) {
                    self.skip_next();
                }
                proof {
                    assert(self@ =~~= effect(old(self)@, ins, random));
                }
            },
            Instruction::SkipIfKeyNotPressed(reg) => {
                if !is_key_down(self.input.curr, self.registers.v[reg]) {
                    self.skip_next();
                }
                proof {
                    assert(self@ =~~= effect(old(self)@, ins, random));
                }
            },
            Instruction::StoreKeypress(reg) => {
                if self.input.key_just_released {
                    // the greatest key that was held at the last step and is not now
                    self.registers.v[reg] = greatest_key(self.input.prev & !self.input.curr);
                } else {
                    // come back to this instruction on the next step
                    self.registers.pc = (self.registers.pc + 4094) % 4096;
                }
                proof {
                    assert(self@ =~~= effect(old(self)@, ins, random));
                }
            },
            _ => {},
        }
    }

    /// Instructions that compute into the V registers.
    #[verifier::rlimit(40)]
    fn execute_alu(&mut self, ins: Instruction, random: u8)
        requires
            old(self).wf(),
            ins.wf(),
            is_alu(ins),
            step_error(old(self)@, 0, ins) is None,
        ensures
            final(self)@ == effect(old(self)@, ins, random),
            final(self).wf(),
    {
        match ins {
            Instruction::LoadImm(reg, imm) => {
                self.registers.v[reg] = imm;
                proof {
                    assert(self@ =~~= effect(old(self)@, ins, random));
                }
            },
            Instruction::LoadReg(regx, regy) => {
                self.registers.v[regx] = self.registers.v[regy];
                proof {
                    assert(self@ =~~= effect(old(self)@, ins, random));
                }
            },
            Instruction::ReadDelayTimer(reg) => {
                self.registers.v[reg] = self.registers.dt;
                proof {
                    assert(self@ =~~= effect(old(self)@, ins, random));
                }
            },
            Instruction::AddImm(reg, imm) => {
                self.registers.v[reg] = ((self.registers.v[reg] as u16 + imm as u16) % 256) as u8;
                proof {
                    assert(self@ =~~= effect(old(self)@, ins, random));
                }
            },
            Instruction::AddReg(regx, regy) => {
                let sum: u16 = self.registers.v[regx] as u16 + self.registers.v[regy] as u16;
                self.registers.v[regx] = (sum % 256) as u8;
                // VF holds the carry
                self.registers.v[0xF] = if sum > 255 { 1 } else { 0 };
                proof {
                    assert(self@ =~~= effect(old(self)@, ins, random));
                }
            },
            Instruction::SubReg(regx, regy) => {
                let vx: u8 = self.registers.v[regx];
                let vy: u8 = self.registers.v[regy];
                self.registers.v[regx] = if vx >= vy { vx - vy } else { (256 + vx as u16 - vy as u16) as u8 };
                // VF is set when there was no borrow
                self.registers.v[0xF] = if vx >= vy { 1 } else { 0 };
                proof {
                    assert(self@ =~~= effect(old(self)@, ins, random));
                }
            },
            Instruction::SubNReg(regx, regy) => {
                let vx: u8 = self.registers.v[regx];
                let vy: u8 = self.registers.v[regy];
                self.registers.v[regx] = if vy >= vx { vy - vx } else { (256 + vy as u16 - vx as u16) as u8 };
                // VF is set when there was no borrow
                self.registers.v[0xF] = if vy >= vx { 1 } else { 0 };
                proof {
                    assert(self@ =~~= effect(old(self)@, ins, random));
                }
            },
            Instruction::ShiftRightReg(regx, regy) => {
                // VX takes VY, shifted right; VF takes the bit shifted out
                let vy: u8 = self.registers.v[regy];
                assert(vy >> 1u8 == vy / 2 && vy & 1u8 == vy % 2) by (bit_vector);
                self.registers.v[regx] = vy >> 1;
                self.registers.v[0xF] = vy & 1;
                proof {
                    assert(self@ =~~= effect(old(self)@, ins, random));
                }
            },
            Instruction::ShiftLeftReg(regx, regy) => {
                // VX takes VY, shifted left; VF takes the bit shifted out
                let vy: u8 = self.registers.v[regy];
                assert(vy << 1u8 == (vy * 2) % 256 && (vy & 0x80u8) >> 7u8 == vy / 128) by (bit_vector);
                self.registers.v[regx] = vy << 1;
                self.registers.v[0xF] = (vy & 0x80) >> 7;
                proof {
                    assert(self@ =~~= effect(old(self)@, ins, random));
                }
            },
            Instruction::OrReg(regx, regy) => {
                self.registers.v[regx] = self.registers.v[regx] | self.registers.v[regy];
                self.registers.v[0xF] = 0;
                proof {
                    assert(self@ =~~= effect(old(self)@, ins, random));
                }
            },
            Instruction::AndReg(regx, regy) => {
                self.registers.v[regx] = self.registers.v[regx] & self.registers.v[regy];
                self.registers.v[0xF] = 0;
                proof {
                    assert(self@ =~~= effect(old(self)@, ins, random));
                }
            },
            Instruction::XorReg(regx, regy) => {
                self.registers.v[regx] = self.registers.v[regx] ^ self.registers.v[regy];
                self.registers.v[0xF] = 0;
                proof {
                    assert(self@ =~~= effect(old(self)@, ins, random));
                }
            },
            Instruction::RandAndImmediate(reg, imm) => {
                self.registers.v[reg] = random & imm;
                self.registers.v[0xF] = 0;
                proof {
                    assert(self@ =~~= effect(old(self)@, ins, random));
                }
            },
            _ => {},
        }
    }

    /// Instructions on I, the timers, RAM and the display.
    #[verifier::rlimit(40)]
    fn execute_memory(&mut self, ins: Instruction, random: u8)
        requires
            old(self).wf(),
            ins.wf(),
            !is_flow(ins) && !is_alu(ins),
            step_error(old(self)@, 0, ins) is None,
        ensures
            final(self)@ == effect(old(self)@, ins, random),
            final(self).wf(),
    {
        match ins {
            Instruction::LoadAddress(addr) => {
                self.registers.i = addr as u16;
                proof {
                    assert(self@ =~~= effect(old(self)@, ins, random));
                }
            },
            Instruction::WriteDelayTimer(reg) => {
                self.registers.dt = self.registers.v[reg];
                proof {
                    assert(self@ =~~= effect(old(self)@, ins, random));
                }
            },
            Instruction::WriteSoundTimer(reg) => {
                self.registers.st = self.registers.v[reg];
                proof {
                    assert(self@ =~~= effect(old(self)@, ins, random));
                }
            },
            Instruction::AddIndex(reg) => {
                self.registers.i = ((self.registers.i as u32 + self.registers.v[reg] as u32)
                    % 65536) as u16;
                proof {
                    assert(self@ =~~= effect(old(self)@, ins, random));
                }
            },
            Instruction::Draw(regx, regy, n) => {
                self.draw_sprite(regx, regy, n);
                proof {
                    assert(self@ =~~= effect(old(self)@, ins, random));
                }
            },
            Instruction::SetSpriteLoc(reg) => {
                // each glyph is 5 bytes long
                self.registers.i = self.registers.v[reg] as u16 * 5;
                proof {
                    assert(self@ =~~= effect(old(self)@, ins, random));
                }
            },
            Instruction::StoreBCD(reg) => {
                self.store_bcd(reg);
                proof {
                    assert(self@ =~~= effect(old(self)@, ins, random));
                }
            },
            Instruction::StoreRegisters(reg) => {
                self.store_registers(reg);
                proof {
                    assert(self@ =~~= effect(old(self)@, ins, random));
                }
            },
            Instruction::ReadRegisters(reg) => {
                self.read_registers(reg);
                proof {
                    assert(self@ =~~= effect(old(self)@, ins, random));
                }
            },
            _ => {},
        }
    }

    /// Moves the program counter past the next instruction.
    fn skip_next(&mut self)
        requires
            old(self).wf(),
        ensures
            final(self)@ == old(self)@.skip_if(true),
            final(self).wf(),
    {
        self.registers.pc = (self.registers.pc + 2) % 4096;
        proof {
            assert(self@ =~~= old(self)@.skip_if(true));
        }
    }

    /// LD B, Vx: the hundreds, tens and ones of Vx at I, I+1 and I+2.
    fn store_bcd(&mut self, reg: usize)
        requires
            old(self).wf(),
            reg < 16,
        ensures
            final(self)@ == (MachineState { ram: bcd_ram(old(self)@, old(self)@.v[reg as int]), ..old(self)@ }),
            final(self).wf(),
    {
        let val: u8 = self.registers.v[reg];
        let base: usize = self.registers.i as usize;
        self.memory.ram[base % MEM_SIZE] = val / 100;
        self.memory.ram[(base + 1) % MEM_SIZE] = (val / 10) % 10;
        self.memory.ram[(base + 2) % MEM_SIZE] = val % 10;
        proof {
            assert(self@ =~~= (MachineState { ram: bcd_ram(old(self)@, val), ..old(self)@ }));
        }
    }

    /// LD [I], Vx: V0..=Vx to RAM from I on, then I advances past them.
    fn store_registers(&mut self, reg: usize)
        requires
            old(self).wf(),
            reg < 16,
        ensures
            final(self)@ == effect(old(self)@, Instruction::StoreRegisters(reg), 0),
            final(self).wf(),
    {
        let ghost s = self@;
        let base: usize = self.registers.i as usize;
        let mut r: usize = 0;
        while r <= reg
            invariant
                r <= reg + 1,
                reg < 16,
                base == s.i,
                self@ == (MachineState { ram: self@.ram, ..s }),
                self@.ram.len() == 4096,
                forall|a: int|
                    0 <= a < 4096 ==> #[trigger] self@.ram[a] == if wrap_addr(a - s.i) < r {
                        s.v[wrap_addr(a - s.i)]
                    } else {
                        s.ram[a]
                    },
            decreases reg + 1 - r,
        {
            self.memory.ram[(base + r) % MEM_SIZE] = self.registers.v[r];
            r = r + 1;
        }
        self.registers.i = ((self.registers.i as u32 + reg as u32 + 1) % 65536) as u16;
        proof {
            assert(self@.ram =~= stored_ram(s, reg as int));
            assert(self@ =~~= effect(s, Instruction::StoreRegisters(reg), 0));
        }
    }

    /// LD Vx, [I]: V0..=Vx from RAM from I on, then I advances past them.
    fn read_registers(&mut self, reg: usize)
        requires
            old(self).wf(),
            reg < 16,
        ensures
            final(self)@ == effect(old(self)@, Instruction::ReadRegisters(reg), 0),
            final(self).wf(),
    {
        let ghost s = self@;
        let base: usize = self.registers.i as usize;
        let mut r: usize = 0;
        while r <= reg
            invariant
                r <= reg + 1,
                reg < 16,
                base == s.i,
                self@ == (MachineState { v: self@.v, ..s }),
                self@.v.len() == 16,
                forall|k: int|
                    0 <= k < 16 ==> #[trigger] self@.v[k] == if k < r {
                        s.ram[wrap_addr(s.i + k)]
                    } else {
                        s.v[k]
                    },
            decreases reg + 1 - r,
        {
            self.registers.v[r] = self.memory.ram[(base + r) % MEM_SIZE];
            r = r + 1;
        }
        self.registers.i = ((self.registers.i as u32 + reg as u32 + 1) % 65536) as u16;
        proof {
            assert(self@.v =~= loaded_regs(s, reg as int));
            assert(self@ =~~= effect(s, Instruction::ReadRegisters(reg), 0));
        }
    }

    /// DRW Vx, Vy, n: XOR the n-row sprite at I onto the display at
    /// (Vx mod 64, Vy mod 32), clipping at the edges; VF tells whether a lit
    /// pixel was turned off.
    fn draw_sprite(&mut self, regx: usize, regy: usize, n: u8)
        requires
            old(self).wf(),
            regx < 16,
            regy < 16,
            n < 16,
        ensures
            final(self)@ == draw(old(self)@, regx as int, regy as int, n as int),
            final(self).wf(),
    {
        // reset VF
        self.registers.v[0xF] = 0;
        let ghost s0 = self@;
        // get x and y to start drawing the sprite
        let start_x: usize = self.registers.v[regx] as usize % DISPLAY_WIDTH;
        let start_y: usize = self.registers.v[regy] as usize % DISPLAY_HEIGHT;
        let ghost sx = start_x as int;
        let ghost sy = start_y as int;
        let ghost h = n as int;
        let base: usize = self.registers.i as usize;
        let mut collision: bool = false;
        let mut row: usize = 0;
        while row < n as usize
            invariant
                row <= n,
                n < 16,
                start_x < 64,
                start_y < 32,
                sx == start_x,
                sy == start_y,
                h == n,
                base == s0.i,
                s0.wf(),
                self@ == (MachineState { vram: self@.vram, ..s0 }),
                self@.wf(),
                forall|py: int, px: int|
                    0 <= py < 32 && 0 <= px < 64 ==> #[trigger] self@.vram[py][px] == (s0.vram[py][px]
                        != (sprite_covers(s0.ram, s0.i, h, sx, sy, py, px) && drawn_before(
                        sx,
                        sy,
                        row as int,
                        0,
                        py,
                        px,
                    ))),
                collision == hit_before(s0, h, sx, sy, row as int, 0),
            decreases n - row,
        {
            let sprite_row: u8 = self.memory.ram[(base + row) % MEM_SIZE];
            let mut col: usize = 0;
            while col < 8
                invariant
                    row < n,
                    n < 16,
                    col <= 8,
                    start_x < 64,
                    start_y < 32,
                    sx == start_x,
                    sy == start_y,
                    h == n,
                    base == s0.i,
                    sprite_row == s0.ram[wrap_addr(s0.i + row)],
                    s0.wf(),
                    self@ == (MachineState { vram: self@.vram, ..s0 }),
                    self@.wf(),
                    forall|py: int, px: int|
                        0 <= py < 32 && 0 <= px < 64 ==> #[trigger] self@.vram[py][px] == (
                        s0.vram[py][px] != (sprite_covers(s0.ram, s0.i, h, sx, sy, py, px)
                            && drawn_before(sx, sy, row as int, col as int, py, px))),
                    collision == hit_before(s0, h, sx, sy, row as int, col as int),
                decreases 8 - col,
            {
                // get this pixel of the sprite
                let pixel: bool = (sprite_row >> (7 - col) as u8) & 1 == 1;
                let x: usize = start_x + col;
                let y: usize = start_y + row;
                proof {
                    assert(pixel == sprite_covers(s0.ram, s0.i, h, sx, sy, y as int, x as int));
                }
                let ghost before = self@;
                let ghost was = collision;
                // pixels past the edge of the display are clipped
                if pixel && x < DISPLAY_WIDTH && y < DISPLAY_HEIGHT {
                    let lit: bool = self.memory.vram[y][x];
                    proof {
                        assert(lit == before.vram[y as int][x as int]);
                        assert(!drawn_before(sx, sy, row as int, col as int, y as int, x as int));
                    }
                    // a lit pixel turned off is a collision
                    if lit {
                        collision = true;
                    }
                    self.memory.vram[y][x] = !lit;
                }
                proof {
                    assert forall|py: int, px: int|
                        0 <= py < 32 && 0 <= px < 64 implies #[trigger] self@.vram[py][px] == (
                        s0.vram[py][px] != (sprite_covers(s0.ram, s0.i, h, sx, sy, py, px)
                            && drawn_before(sx, sy, row as int, col + 1, py, px))) by {
                        if py == y && px == x {
                            assert(!drawn_before(sx, sy, row as int, col as int, py, px));
                        } else {
                            assert(self@.vram[py][px] == before.vram[py][px]);
                            assert(drawn_before(sx, sy, row as int, col as int, py, px) == drawn_before(
                                sx, sy, row as int, col + 1, py, px));
                        }
                    }
                    assert(collision == hit_before(s0, h, sx, sy, row as int, col + 1)) by {
                        if hit_before(s0, h, sx, sy, row as int, col + 1) {
                            let (py, px) = choose|py: int, px: int|
                                0 <= py < 32 && 0 <= px < 64 && #[trigger] sprite_covers(
                                    s0.ram, s0.i, h, sx, sy, py, px)
                                    && drawn_before(sx, sy, row as int, col + 1, py, px)
                                    && s0.vram[py][px];
                            if !(py == y && px == x) {
                                assert(drawn_before(sx, sy, row as int, col as int, py, px));
                            }
                        }
                        if was {
                            let (py, px) = choose|py: int, px: int|
                                0 <= py < 32 && 0 <= px < 64 && #[trigger] sprite_covers(
                                    s0.ram, s0.i, h, sx, sy, py, px)
                                    && drawn_before(sx, sy, row as int, col as int, py, px)
                                    && s0.vram[py][px];
                            assert(drawn_before(sx, sy, row as int, col + 1, py, px));
                        }
                        if collision && !was {
                            assert(sprite_covers(s0.ram, s0.i, h, sx, sy, y as int, x as int));
                            assert(drawn_before(sx, sy, row as int, col + 1, y as int, x as int));
                        }
                    }
                }
                col = col + 1;
            }
            proof {
                assert forall|py: int, px: int|
                    0 <= py < 32 && 0 <= px < 64 implies (sprite_covers(s0.ram, s0.i, h, sx, sy, py, px)
                        && drawn_before(sx, sy, row as int, 8, py, px)) == (sprite_covers(
                        s0.ram, s0.i, h, sx, sy, py, px) && drawn_before(sx, sy, row + 1, 0, py, px)) by {}
                if hit_before(s0, h, sx, sy, row + 1, 0) {
                    let (py, px) = choose|py: int, px: int|
                        0 <= py < 32 && 0 <= px < 64 && #[trigger] sprite_covers(s0.ram, s0.i, h, sx, sy, py, px)
                            && drawn_before(sx, sy, row + 1, 0, py, px) && s0.vram[py][px];
                    assert(drawn_before(sx, sy, row as int, 8, py, px));
                }
                if hit_before(s0, h, sx, sy, row as int, 8) {
                    let (py, px) = choose|py: int, px: int|
                        0 <= py < 32 && 0 <= px < 64 && #[trigger] sprite_covers(s0.ram, s0.i, h, sx, sy, py, px)
                            && drawn_before(sx, sy, row as int, 8, py, px) && s0.vram[py][px];
                    assert(drawn_before(sx, sy, row + 1, 0, py, px));
                }
            }
            row = row + 1;
        }
        // set VF if a lit pixel was turned off
        if collision {
            self.registers.v[0xF] = 1;
        }
        proof {
            assert forall|py: int, px: int|
                0 <= py < 32 && 0 <= px < 64 implies (sprite_covers(s0.ram, s0.i, h, sx, sy, py, px)
                    && drawn_before(sx, sy, h, 0, py, px)) == sprite_covers(s0.ram, s0.i, h, sx, sy, py, px) by {}
            assert(collision == collides(s0, h, sx, sy)) by {
                if collides(s0, h, sx, sy) {
                    let (py, px) = choose|py: int, px: int|
                        0 <= py < 32 && 0 <= px < 64 && #[trigger] sprite_covers(s0.ram, s0.i, h, sx, sy, py, px)
                            && s0.vram[py][px];
                    assert(drawn_before(sx, sy, h, 0, py, px));
                }
            }
            assert(self@.vram =~~= drawn_screen(s0, h, sx, sy));
            assert(self@ =~~= draw(old(self)@, regx as int, regy as int, n as int));
        }
    }
}

/// Relies on rand's `thread_rng().gen::<u8>()`: a byte from the thread-local
/// generator. Nothing is known of its value.
#[verifier::external_body]
fn random_byte() -> (r: u8) {
    rand::Rng::gen::<u8>(&mut rand::thread_rng())
}

} // verus!
