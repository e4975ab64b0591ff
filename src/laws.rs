//! Properties of the machine model that hold for every state, proved once
//! here.

use vstd::prelude::*;
use vstd::set_lib::{lemma_int_range, lemma_len_subset, lemma_map_size_bound, set_int_range};
use crate::instructions::{decoded, Immediate, Instruction, Register};
use crate::model::{
    effect, frame_tick, sprite_covers, step, wrap_addr, MachineState,
};

verus! {

/// Every address the machine forms is in RAM, and a step keeps the machine
/// well formed: 4096 bytes of RAM, the program counter below 4096, the stack
/// pointer within the stack.
pub proof fn lemma_step_stays_in_ram(s: MachineState, random: u8)
    requires
        s.wf(),
    ensures
        forall|a: int| 0 <= #[trigger] wrap_addr(a) < 4096,
        step(s, random).1.wf(),
        step(s, random).1.ram.len() == 4096,
        0 <= step(s, random).1.pc < 4096,
{
    lemma_effect_keeps_wf(s, decoded(s.opcode()), random);
}

/// Each instruction that a step executes keeps the machine well formed.
proof fn lemma_effect_keeps_wf(s: MachineState, ins: Instruction, random: u8)
    requires
        s.wf(),
        ins == decoded(s.opcode()),
    ensures
        crate::model::step_error(s, s.opcode(), ins) is None ==> effect(s, ins, random).wf(),
{
    crate::instructions::lemma_decoded_wf(s.opcode());
    if crate::model::step_error(s, s.opcode(), ins) is None {
        let t = effect(s, ins, random);
        match ins {
            Instruction::Draw(x, y, n) => {
                assert forall|py: int| 0 <= py < 32 implies (#[trigger] t.vram[py]).len() == 64 by {}
            },
            Instruction::Call(a) => {
                assert forall|k: int| 0 <= k < 1024 implies (#[trigger] t.stack[k]) < 4096 by {
                    if k != s.sp {
                        assert(t.stack[k] == s.stack[k]);
                    }
                }
            },
            _ => {},
        }
    }
}

/// Whether the jump that `ins` makes, if any, lands on an even address.
pub open spec fn even_target(s: MachineState, ins: Instruction) -> bool {
    match ins {
        Instruction::Jump(a) | Instruction::Call(a) => a % 2 == 0,
        Instruction::JumpWithOffset(a) => (a + s.v[0]) % 2 == 0,
        _ => true,
    }
}

/// Whether the program counter and every return address on the stack are
/// even.
pub open spec fn even_pcs(s: MachineState) -> bool {
    s.pc % 2 == 0 && forall|k: int| 0 <= k < s.sp ==> #[trigger] s.stack[k] % 2 == 0
}

/// A program whose jumps go to even addresses keeps the program counter
/// even: from an even program counter and even return addresses, a step
/// leaves them even, and the program counter below 4096.
pub proof fn lemma_step_keeps_pc_even(s: MachineState, random: u8)
    requires
        s.wf(),
        even_pcs(s),
        even_target(s, decoded(s.opcode())),
    ensures
        even_pcs(step(s, random).1),
        0 <= step(s, random).1.pc < 4096,
{
    lemma_step_stays_in_ram(s, random);
    crate::instructions::lemma_decoded_wf(s.opcode());
    let ins = decoded(s.opcode());
    if crate::model::step_error(s, s.opcode(), ins) is None {
        let e = effect(s, ins, random);
        let t = step(s, random).1;
        assert(t == crate::model::finish_step(e));
        match ins {
            Instruction::Ret => {
                assert(s.stack[s.sp - 1] % 2 == 0);
                lemma_wrap_even(e.pc + 2);
            },
            Instruction::Call(a) => {
                lemma_wrap_even(a - 2);
                lemma_wrap_even(e.pc + 2);
                assert forall|k: int| 0 <= k < t.sp implies #[trigger] t.stack[k] % 2 == 0 by {
                    if k != s.sp {
                        assert(t.stack[k] == s.stack[k]);
                    }
                }
            },
            Instruction::Jump(a) => {
                lemma_wrap_even(a - 2);
                lemma_wrap_even(e.pc + 2);
            },
            Instruction::JumpWithOffset(a) => {
                lemma_wrap_even(a + s.v[0]);
                lemma_wrap_even(e.pc + 2);
            },
            _ => {
                lemma_wrap_even(s.pc + 2);
                lemma_wrap_even(s.pc - 2);
                lemma_wrap_even(wrap_addr(s.pc + 2) + 2);
                lemma_wrap_even(wrap_addr(s.pc - 2) + 2);
                assert(e.sp == s.sp && e.stack == s.stack);
                assert(e.pc == s.pc || e.pc == wrap_addr(s.pc + 2) || e.pc == wrap_addr(s.pc - 2));
                lemma_wrap_even(e.pc + 2);
            },
        }
    }
}

/// Reducing into the address space keeps an address's parity.
proof fn lemma_wrap_even(a: int)
    ensures
        (a % 2 == 0) == (wrap_addr(a) % 2 == 0),
{
}

/// LD Vx, kk sets Vx to kk and leaves every other register as it was.
pub proof fn lemma_load_immediate(s: MachineState, x: Register, kk: Immediate, random: u8)
    requires
        s.wf(),
        decoded(s.opcode()) == Instruction::LoadImm(x, kk),
    ensures
        step(s, random).0 == Ok::<u16, crate::model::StepError>(s.opcode()),
        step(s, random).1.v[x as int] == kk,
        forall|r: int| 0 <= r < 16 && r != x ==> #[trigger] step(s, random).1.v[r] == s.v[r],
{
    crate::instructions::lemma_decoded_wf(s.opcode());
}

/// Whether `ins` writes VF as a flag: carry, borrow, shifted-out bit,
/// cleared by a logic operation or RND, or collision.
pub open spec fn writes_flag(ins: Instruction) -> bool {
    match ins {
        Instruction::AddReg(_, _) | Instruction::SubReg(_, _) | Instruction::SubNReg(_, _)
        | Instruction::OrReg(_, _) | Instruction::AndReg(_, _) | Instruction::XorReg(_, _)
        | Instruction::ShiftRightReg(_, _) | Instruction::ShiftLeftReg(_, _)
        | Instruction::RandAndImmediate(_, _) | Instruction::Draw(_, _, _) => true,
        _ => false,
    }
}

/// Whether `ins` writes register `r` as its destination.
pub open spec fn writes_register(ins: Instruction, r: int) -> bool {
    match ins {
        Instruction::LoadImm(x, _) | Instruction::LoadReg(x, _) | Instruction::AddImm(x, _)
        | Instruction::ReadDelayTimer(x) | Instruction::StoreKeypress(x) => x == r,
        Instruction::ReadRegisters(x) => r <= x,
        _ => false,
    }
}

/// VF changes only through the instructions that write it as a flag, or
/// through one that names it as its destination.
pub proof fn lemma_flag_writers(s: MachineState, random: u8)
    requires
        s.wf(),
        !writes_flag(decoded(s.opcode())),
        !writes_register(decoded(s.opcode()), 15),
    ensures
        step(s, random).1.v[15] == s.v[15],
{
    crate::instructions::lemma_decoded_wf(s.opcode());
}

/// CLS turns every pixel off.
pub proof fn lemma_clear_screen(s: MachineState, random: u8)
    requires
        s.wf(),
        decoded(s.opcode()) == Instruction::Cls,
    ensures
        forall|py: int, px: int|
            0 <= py < 32 && 0 <= px < 64 ==> !#[trigger] step(s, random).1.vram[py][px],
{
}

/// The cells, as (row, column), that are off in `before` and on in `after`.
pub open spec fn newly_lit(before: Seq<Seq<bool>>, after: Seq<Seq<bool>>) -> Set<(int, int)> {
    Set::new(
        |p: (int, int)|
            0 <= p.0 < 32 && 0 <= p.1 < 64 && !before[p.0][p.1] && after[p.0][p.1],
    )
}

/// DRW Vx, Vy, n lights at most 8·n pixels, and sets VF to 1 exactly when it
/// turns a lit pixel off, to 0 otherwise.
pub proof fn lemma_draw(s: MachineState, x: Register, y: Register, n: u8, random: u8)
    requires
        s.wf(),
        decoded(s.opcode()) == Instruction::Draw(x, y, n),
    ensures
        newly_lit(s.vram, step(s, random).1.vram).finite(),
        newly_lit(s.vram, step(s, random).1.vram).len() <= 8 * n,
        step(s, random).1.v[15] == 1 <==> exists|py: int, px: int|
            0 <= py < 32 && 0 <= px < 64 && #[trigger] s.vram[py][px] && !step(s, random).1.vram[py][px],
        step(s, random).1.v[15] == 0 || step(s, random).1.v[15] == 1,
{
    crate::instructions::lemma_decoded_wf(s.opcode());
    let t = step(s, random).1;
    let s0 = s.set_flag(0);
    let sx = s0.v[x as int] as int % 64;
    let sy = s0.v[y as int] as int % 32;
    let h = n as int;
    let lit = newly_lit(s.vram, t.vram);
    let f = |k: int| (sy + k / 8, sx + k % 8);
    let cells = set_int_range(0, 8 * h).map(f);
    lemma_int_range(0, 8 * h);
    lemma_map_size_bound(set_int_range(0, 8 * h), cells, f);
    assert forall|p: (int, int)| lit.contains(p) implies cells.contains(p) by {
        assert(sprite_covers(s0.ram, s0.i, h, sx, sy, p.0, p.1));
        let k = 8 * (p.0 - sy) + (p.1 - sx);
        assert(k / 8 == p.0 - sy && k % 8 == p.1 - sx);
        assert(set_int_range(0, 8 * h).contains(k));
        assert(f(k) == p);
    }
    lemma_len_subset(lit, cells);
    if t.v[15] == 1 {
        let (py, px) = choose|py: int, px: int|
            0 <= py < 32 && 0 <= px < 64 && #[trigger] sprite_covers(s0.ram, s0.i, h, sx, sy, py, px)
                && s0.vram[py][px];
        assert(s.vram[py][px] && !t.vram[py][px]);
    }
    if exists|py: int, px: int|
        0 <= py < 32 && 0 <= px < 64 && #[trigger] s.vram[py][px] && !t.vram[py][px] {
        let (py, px) = choose|py: int, px: int|
            0 <= py < 32 && 0 <= px < 64 && #[trigger] s.vram[py][px] && !t.vram[py][px];
        assert(sprite_covers(s0.ram, s0.i, h, sx, sy, py, px));
    }
}

/// A frame never raises a timer, and lowers each nonzero one by exactly one.
pub proof fn lemma_frame_tick_timers(s: MachineState)
    ensures
        frame_tick(s).dt <= s.dt,
        frame_tick(s).st <= s.st,
        s.dt > 0 ==> frame_tick(s).dt == s.dt - 1,
        s.st > 0 ==> frame_tick(s).st == s.st - 1,
        s.dt == 0 ==> frame_tick(s).dt == 0,
        s.st == 0 ==> frame_tick(s).st == 0,
{
}

/// A step never counts a timer down: only LD DT, Vx and LD ST, Vx write one.
pub proof fn lemma_step_keeps_timers(s: MachineState, random: u8)
    requires
        s.wf(),
    ensures
        !(decoded(s.opcode()) is WriteDelayTimer) ==> step(s, random).1.dt == s.dt,
        !(decoded(s.opcode()) is WriteSoundTimer) ==> step(s, random).1.st == s.st,
{
}

/// OR, AND and XOR clear VF.
pub proof fn lemma_logic_clears_flag(s: MachineState, random: u8)
    requires
        s.wf(),
        decoded(s.opcode()) is OrReg || decoded(s.opcode()) is AndReg || decoded(s.opcode()) is XorReg,
    ensures
        step(s, random).1.v[15] == 0,
{
    crate::instructions::lemma_decoded_wf(s.opcode());
}

/// SHR Vx, Vy puts Vy shifted right by one in Vx and the bit shifted out in
/// VF; SHL Vx, Vy likewise to the left. When Vx is VF itself, the flag is
/// what remains.
pub proof fn lemma_shifts(s: MachineState, x: Register, y: Register, random: u8)
    requires
        s.wf(),
        decoded(s.opcode()) == Instruction::ShiftRightReg(x, y) || decoded(s.opcode())
            == Instruction::ShiftLeftReg(x, y),
    ensures
        decoded(s.opcode()) is ShiftRightReg ==> {
            &&& x != 15 ==> step(s, random).1.v[x as int] == s.v[y as int] >> 1u8
            &&& step(s, random).1.v[15] == s.v[y as int] & 1u8
        },
        decoded(s.opcode()) is ShiftLeftReg ==> {
            &&& x != 15 ==> step(s, random).1.v[x as int] == s.v[y as int] << 1u8
            &&& step(s, random).1.v[15] == (s.v[y as int] & 0x80u8) >> 7u8
        },
{
    crate::instructions::lemma_decoded_wf(s.opcode());
    let vy = s.v[y as int];
    assert(vy >> 1u8 == vy / 2 && vy & 1u8 == vy % 2) by (bit_vector);
    assert(vy << 1u8 == (vy * 2) % 256 && (vy & 0x80u8) >> 7u8 == vy / 128) by (bit_vector);
}

/// LD [I], Vx followed, with I set back, by LD Vx, [I] gives back V0..=Vx
/// and leaves the other registers alone; both advance I by x + 1.
pub proof fn lemma_store_then_read(s: MachineState, x: Register, random: u8)
    requires
        s.wf(),
        x < 16,
    ensures
        ({
            let stored = effect(s, Instruction::StoreRegisters(x), random);
            let read = effect(MachineState { i: s.i, ..stored }, Instruction::ReadRegisters(x), random);
            &&& read.v =~= s.v
            &&& stored.i == read.i
            &&& stored.i as int == (s.i + x + 1) % 65536
        }),
{
    let stored = effect(s, Instruction::StoreRegisters(x), random);
    assert forall|r: int| 0 <= r <= x implies #[trigger] stored.ram[wrap_addr(s.i + r)] == s.v[r] by {
        assert(wrap_addr(wrap_addr(s.i + r) - s.i) == r);
    }
}

/// LD B, Vx writes three decimal digits at I, I+1, I+2 whose value is Vx.
pub proof fn lemma_bcd(s: MachineState, x: Register, random: u8)
    requires
        s.wf(),
        x < 16,
    ensures
        ({
            let t = effect(s, Instruction::StoreBCD(x), random);
            let b0 = t.ram[wrap_addr(s.i as int)];
            let b1 = t.ram[wrap_addr(s.i + 1)];
            let b2 = t.ram[wrap_addr(s.i + 2)];
            &&& 100 * b0 + 10 * b1 + b2 == s.v[x as int]
            &&& b1 < 10
            &&& b2 < 10
        }),
{
    let v = s.v[x as int];
    assert(100 * (v / 100) + 10 * ((v / 10) % 10) + v % 10 == v) by (nonlinear_arith)
        requires
            0 <= v < 256,
    ;
}

} // verus!
