//! What each instruction does, stated directly over one `step` (the contract
//! of `Cpu::tick` and `Chip8::tick`) in terms of the registers, keys, RAM and
//! screen before the step, independently of how `execute_spec` is written.
use vstd::prelude::*;

use crate::cpu::{can_step, fetched_opcode, next_instruction, step, MachineState, FLAG, STACK_SIZE};
use crate::display::{
    lemma_draw_direct, pixel_index, sprite_covers, sprite_pixel_on, DISPLAY_SIZE,
};
use crate::memory::MEMORY_SIZE;
use crate::opcode::{lemma_decode_in_range, Instruction};

verus! {

/// `pc + d`, wrapped to sixteen bits.
pub open spec fn pc_plus(pc: u16, d: int) -> int {
    (pc + d) % 0x10000
}

/// Only the program counter may differ between `a` and `b`.
pub open spec fn same_but_pc(a: MachineState, b: MachineState) -> bool {
    &&& a.cpu.registers == b.cpu.registers
    &&& a.cpu.i == b.cpu.i
    &&& a.cpu.stack == b.cpu.stack
    &&& a.cpu.sp == b.cpu.sp
    &&& a.cpu.delay_timer == b.cpu.delay_timer
    &&& a.cpu.sound_timer == b.cpu.sound_timer
    &&& a.ram == b.ram
    &&& a.display == b.display
    &&& a.keys == b.keys
}

/// Only the registers and the program counter may differ between `a` and
/// `b`, and among the registers only those in `changed`.
pub open spec fn same_but_registers(a: MachineState, b: MachineState, changed: Set<int>) -> bool {
    &&& forall|k: int| 0 <= k < 16 && !changed.contains(k) ==> #[trigger] a.cpu.registers[k] == b.cpu.registers[k]
    &&& a.cpu.registers.len() == b.cpu.registers.len()
    &&& a.cpu.i == b.cpu.i
    &&& a.cpu.stack == b.cpu.stack
    &&& a.cpu.sp == b.cpu.sp
    &&& a.cpu.delay_timer == b.cpu.delay_timer
    &&& a.cpu.sound_timer == b.cpu.sound_timer
    &&& a.ram == b.ram
    &&& a.display == b.display
    &&& a.keys == b.keys
}

/// Opcodes are fetched big-endian: the byte at the program counter is the
/// high byte of the opcode and the byte after it the low byte.
pub proof fn lemma_fetch_big_endian(m: MachineState)
    requires
        m.wf(),
        m.cpu.pc + 1 < MEMORY_SIZE,
    ensures
        fetched_opcode(m.cpu, m.ram) >> 8u16 == m.ram[m.cpu.pc as int] as u16,
        fetched_opcode(m.cpu, m.ram) & 0xFFu16 == m.ram[m.cpu.pc + 1] as u16,
{
    let hi = m.ram[m.cpu.pc as int] as u16;
    let lo = m.ram[m.cpu.pc + 1] as u16;
    let op = fetched_opcode(m.cpu, m.ram);
    assert(op == hi * 256 + lo);
    assert(op >> 8u16 == hi && op & 0xFFu16 == lo) by (bit_vector)
        requires
            hi < 256,
            lo < 256,
            op == hi * 256 + lo,
    ;
}

/// Conditional skips: `3XKK` skips the next instruction exactly when
/// Vx == KK, `4XKK` exactly when Vx != KK, `5XY0` exactly when Vx == Vy,
/// `9XY0` exactly when Vx != Vy, `EX9E` exactly when key Vx is held and
/// `EXA1` exactly when it is not, whatever the other keys; skipping moves the
/// program counter by four, not skipping by two, and nothing else changes.
pub proof fn lemma_skips(m: MachineState, random: u8)
    requires
        m.wf(),
        can_step(m.cpu, m.ram, m.keys),
    ensures
        ({
            let s = step(m, random);
            let pc = m.cpu.pc;
            let r = m.cpu.registers;
            let ins = next_instruction(m.cpu, m.ram);
            &&& ins matches Instruction::SeVxByte(x, kk) ==> s.cpu.pc == (if r[x as int] == kk {
                pc_plus(pc, 4)
            } else {
                pc_plus(pc, 2)
            }) && same_but_pc(s, m)
            &&& ins matches Instruction::SneVxByte(x, kk) ==> s.cpu.pc == (if r[x as int] != kk {
                pc_plus(pc, 4)
            } else {
                pc_plus(pc, 2)
            }) && same_but_pc(s, m)
            &&& ins matches Instruction::SeVxVy(x, y) ==> s.cpu.pc == (if r[x as int] == r[y as int] {
                pc_plus(pc, 4)
            } else {
                pc_plus(pc, 2)
            }) && same_but_pc(s, m)
            &&& ins matches Instruction::SneVxVy(x, y) ==> s.cpu.pc == (if r[x as int] != r[
                y as int
            ] {
                pc_plus(pc, 4)
            } else {
                pc_plus(pc, 2)
            }) && same_but_pc(s, m)
            &&& ins matches Instruction::Skp(x) ==> s.cpu.pc == (if m.keys[r[x as int] as int] {
                pc_plus(pc, 4)
            } else {
                pc_plus(pc, 2)
            }) && same_but_pc(s, m)
            &&& ins matches Instruction::Sknp(x) ==> s.cpu.pc == (if !m.keys[r[x as int] as int] {
                pc_plus(pc, 4)
            } else {
                pc_plus(pc, 2)
            }) && same_but_pc(s, m)
        }),
{
    lemma_decode_in_range(fetched_opcode(m.cpu, m.ram));
}

/// Jumps, calls and returns: `1NNN` goes to NNN, `BNNN` to NNN + V0, `2NNN`
/// goes to NNN after pushing the address of the next instruction, and
/// `00EE` pops that address and goes there; nothing else changes.
pub proof fn lemma_control_flow(m: MachineState, random: u8)
    requires
        m.wf(),
        can_step(m.cpu, m.ram, m.keys),
    ensures
        ({
            let s = step(m, random);
            let c = m.cpu;
            let ins = next_instruction(m.cpu, m.ram);
            &&& ins matches Instruction::Jp(nnn) ==> s.cpu.pc == nnn && same_but_pc(s, m)
            &&& ins matches Instruction::JpV0(nnn) ==> s.cpu.pc == nnn + c.registers[0]
                && same_but_pc(s, m)
            &&& ins matches Instruction::Call(nnn) ==> {
                &&& s.cpu.pc == nnn
                &&& s.cpu.sp == c.sp + 1
                &&& s.cpu.stack[c.sp as int] == pc_plus(c.pc, 2)
                &&& forall|k: int| 0 <= k < STACK_SIZE && k != c.sp ==> #[trigger] s.cpu.stack[k]
                    == c.stack[k]
                &&& s.cpu.registers == c.registers && s.ram == m.ram && s.display == m.display
            }
            &&& ins is Ret ==> {
                &&& s.cpu.pc == c.stack[c.sp - 1]
                &&& s.cpu.sp == c.sp - 1
                &&& s.cpu.stack == c.stack
                &&& s.cpu.registers == c.registers && s.ram == m.ram && s.display == m.display
            }
        }),
{
    lemma_decode_in_range(fetched_opcode(m.cpu, m.ram));
}

/// Loads and register logic: `6XKK` sets Vx to KK, `8XY0` copies Vy, `8XY1`,
/// `8XY2` and `8XY3` combine Vx with Vy bit by bit (or, and, xor), and
/// `7XKK` adds KK modulo 256 without touching VF; only Vx changes, and the
/// program counter moves on by two.
pub proof fn lemma_register_loads_and_logic(m: MachineState, random: u8)
    requires
        m.wf(),
        can_step(m.cpu, m.ram, m.keys),
    ensures
        ({
            let s = step(m, random);
            let r = m.cpu.registers;
            let nr = s.cpu.registers;
            let ins = next_instruction(m.cpu, m.ram);
            let moved_on = s.cpu.pc == pc_plus(m.cpu.pc, 2);
            &&& ins matches Instruction::LdVxByte(x, kk) ==> nr[x as int] == kk && moved_on
                && same_but_registers(s, m, set![x as int])
            &&& ins matches Instruction::AddVxByte(x, kk) ==> nr[x as int] == (r[x as int] + kk)
                % 256 && moved_on && same_but_registers(s, m, set![x as int])
            &&& ins matches Instruction::LdVxVy(x, y) ==> nr[x as int] == r[y as int] && moved_on
                && same_but_registers(s, m, set![x as int])
            &&& ins matches Instruction::OrVxVy(x, y) ==> (forall|b: u8|
                b < 8 ==> (#[trigger] (nr[x as int] >> b) & 1 == 1) == ((r[x as int] >> b) & 1
                    == 1 || (r[y as int] >> b) & 1 == 1)) && moved_on && same_but_registers(
                s,
                m,
                set![x as int],
            )
            &&& ins matches Instruction::AndVxVy(x, y) ==> (forall|b: u8|
                b < 8 ==> (#[trigger] (nr[x as int] >> b) & 1 == 1) == ((r[x as int] >> b) & 1
                    == 1 && (r[y as int] >> b) & 1 == 1)) && moved_on && same_but_registers(
                s,
                m,
                set![x as int],
            )
            &&& ins matches Instruction::XorVxVy(x, y) ==> (forall|b: u8|
                b < 8 ==> (#[trigger] (nr[x as int] >> b) & 1 == 1) == (((r[x as int] >> b) & 1
                    == 1) != ((r[y as int] >> b) & 1 == 1))) && moved_on && same_but_registers(
                s,
                m,
                set![x as int],
            )
        }),
{
    lemma_decode_in_range(fetched_opcode(m.cpu, m.ram));
    let r = m.cpu.registers;
    let ins = next_instruction(m.cpu, m.ram);
    let nr = step(m, random).cpu.registers;
    match ins {
        Instruction::OrVxVy(x, y) => {
            let a = r[x as int];
            let c = r[y as int];
            assert(forall|b: u8| b < 8 ==> ((((a | c) >> b) & 1 == 1) <==> ((a >> b) & 1 == 1 || (c >> b) & 1 == 1))) by (bit_vector);
        },
        Instruction::AndVxVy(x, y) => {
            let a = r[x as int];
            let c = r[y as int];
            assert(forall|b: u8| b < 8 ==> ((((a & c) >> b) & 1 == 1) <==> ((a >> b) & 1 == 1 && (c >> b) & 1 == 1))) by (bit_vector);
        },
        Instruction::XorVxVy(x, y) => {
            let a = r[x as int];
            let c = r[y as int];
            assert(forall|b: u8| b < 8 ==> ((((a ^ c) >> b) & 1 == 1) <==> (((a >> b) & 1 == 1) != ((c >> b) & 1 == 1)))) by (bit_vector);
        },
        _ => {},
    }
}

/// `8XY4` with Vx other than VF: VF becomes the carry, and Vx + 256 * VF
/// equals the old Vx + Vy; only Vx and VF change.
pub proof fn lemma_add_with_carry(m: MachineState, random: u8, x: u8, y: u8)
    requires
        m.wf(),
        can_step(m.cpu, m.ram, m.keys),
        next_instruction(m.cpu, m.ram) == Instruction::AddVxVy(x, y),
        x != FLAG,
    ensures
        ({
            let s = step(m, random);
            let r = m.cpu.registers;
            let nr = s.cpu.registers;
            &&& nr[FLAG as int] <= 1
            &&& nr[x as int] + 256 * nr[FLAG as int] == r[x as int] + r[y as int]
            &&& s.cpu.pc == pc_plus(m.cpu.pc, 2)
            &&& same_but_registers(s, m, set![x as int, FLAG as int])
        }),
{
    lemma_decode_in_range(fetched_opcode(m.cpu, m.ram));
}

/// `8XY5` with Vx other than VF: VF becomes 1 exactly when Vx >= Vy (no
/// borrow), and Vx + Vy equals the old Vx + 256 * (1 - VF); only Vx and VF
/// change.
pub proof fn lemma_sub_with_borrow(m: MachineState, random: u8, x: u8, y: u8)
    requires
        m.wf(),
        can_step(m.cpu, m.ram, m.keys),
        next_instruction(m.cpu, m.ram) == Instruction::SubVxVy(x, y),
        x != FLAG,
    ensures
        ({
            let s = step(m, random);
            let r = m.cpu.registers;
            let nr = s.cpu.registers;
            &&& nr[FLAG as int] == (if r[x as int] >= r[y as int] { 1int } else { 0 })
            &&& nr[x as int] + r[y as int] == r[x as int] + 256 * (1 - nr[FLAG as int])
            &&& s.cpu.pc == pc_plus(m.cpu.pc, 2)
            &&& same_but_registers(s, m, set![x as int, FLAG as int])
        }),
{
    lemma_decode_in_range(fetched_opcode(m.cpu, m.ram));
}

/// `8XY7` with Vx other than VF: Vx becomes Vy - Vx; VF becomes 1 exactly
/// when Vy >= Vx (no borrow), and Vx + old Vx equals Vy + 256 * (1 - VF);
/// only Vx and VF change.
pub proof fn lemma_subn_with_borrow(m: MachineState, random: u8, x: u8, y: u8)
    requires
        m.wf(),
        can_step(m.cpu, m.ram, m.keys),
        next_instruction(m.cpu, m.ram) == Instruction::SubnVxVy(x, y),
        x != FLAG,
    ensures
        ({
            let s = step(m, random);
            let r = m.cpu.registers;
            let nr = s.cpu.registers;
            &&& nr[FLAG as int] == (if r[y as int] >= r[x as int] { 1int } else { 0 })
            &&& nr[x as int] + r[x as int] == r[y as int] + 256 * (1 - nr[FLAG as int])
            &&& s.cpu.pc == pc_plus(m.cpu.pc, 2)
            &&& same_but_registers(s, m, set![x as int, FLAG as int])
        }),
{
    lemma_decode_in_range(fetched_opcode(m.cpu, m.ram));
}

/// `8XY6` with Vx other than VF: VF becomes the bit shifted out at the
/// bottom and Vx the old Vx shifted right by one, so 2 * Vx + VF equals the
/// old Vx; only Vx and VF change.
pub proof fn lemma_shift_right(m: MachineState, random: u8, x: u8)
    requires
        m.wf(),
        can_step(m.cpu, m.ram, m.keys),
        next_instruction(m.cpu, m.ram) == Instruction::ShrVx(x),
        x != FLAG,
    ensures
        ({
            let s = step(m, random);
            let v = m.cpu.registers[x as int];
            let nr = s.cpu.registers;
            &&& nr[FLAG as int] == v & 1
            &&& nr[x as int] == v >> 1
            &&& 2 * nr[x as int] + nr[FLAG as int] == v
            &&& s.cpu.pc == pc_plus(m.cpu.pc, 2)
            &&& same_but_registers(s, m, set![x as int, FLAG as int])
        }),
{
    lemma_decode_in_range(fetched_opcode(m.cpu, m.ram));
    let v = m.cpu.registers[x as int];
    assert(v & 1 == v % 2 && v >> 1 == v / 2) by (bit_vector);
}

/// `8XYE` with Vx other than VF: VF becomes the bit shifted out at the top
/// and Vx the old Vx shifted left by one, so Vx + 256 * VF equals twice the
/// old Vx; only Vx and VF change.
pub proof fn lemma_shift_left(m: MachineState, random: u8, x: u8)
    requires
        m.wf(),
        can_step(m.cpu, m.ram, m.keys),
        next_instruction(m.cpu, m.ram) == Instruction::ShlVx(x),
        x != FLAG,
    ensures
        ({
            let s = step(m, random);
            let v = m.cpu.registers[x as int];
            let nr = s.cpu.registers;
            &&& nr[FLAG as int] == v >> 7
            &&& nr[x as int] == v << 1
            &&& nr[x as int] + 256 * nr[FLAG as int] == 2 * v
            &&& s.cpu.pc == pc_plus(m.cpu.pc, 2)
            &&& same_but_registers(s, m, set![x as int, FLAG as int])
        }),
{
    lemma_decode_in_range(fetched_opcode(m.cpu, m.ram));
    let v = m.cpu.registers[x as int];
    assert(v >> 7 == v / 128 && v << 1 == (v * 2) % 256) by (bit_vector);
}

/// Random bytes: `CXKK` sets Vx to the drawn byte with only the bits of KK
/// kept; only Vx changes.
pub proof fn lemma_random(m: MachineState, random: u8)
    requires
        m.wf(),
        can_step(m.cpu, m.ram, m.keys),
    ensures
        next_instruction(m.cpu, m.ram) matches Instruction::Rnd(x, kk) ==> {
            let s = step(m, random);
            &&& s.cpu.registers[x as int] == random & kk
            &&& s.cpu.registers[x as int] & !kk == 0
            &&& s.cpu.registers[x as int] | !random == !random | kk & random
            &&& s.cpu.pc == pc_plus(m.cpu.pc, 2)
            &&& same_but_registers(s, m, set![x as int])
        },
{
    lemma_decode_in_range(fetched_opcode(m.cpu, m.ram));
    if let Instruction::Rnd(x, kk) = next_instruction(m.cpu, m.ram) {
        let v = random & kk;
        assert(v & !kk == 0) by (bit_vector)
            requires
                v == random & kk,
        ;
        assert(v | !random == !random | kk & random) by (bit_vector)
            requires
                v == random & kk,
        ;
    }
}

/// Drawing: `DXYN` XOR-draws the N bytes at I with their top-left corner at
/// (Vx, Vy): a screen pixel flips exactly when a lit sprite pixel lands on
/// it. VF ends up 1 exactly when some lit sprite pixel landed on a lit pixel
/// and 0 otherwise, whatever it held before; the screen is marked for a
/// draw, and no other register, RAM or I changes.
pub proof fn lemma_draw(m: MachineState, random: u8)
    requires
        m.wf(),
        can_step(m.cpu, m.ram, m.keys),
    ensures
        next_instruction(m.cpu, m.ram) matches Instruction::Drw(x, y, n) ==> {
            let s = step(m, random);
            let vx = m.cpu.registers[x as int] as int;
            let vy = m.cpu.registers[y as int] as int;
            let sprite = m.ram.subrange(m.cpu.i as int, m.cpu.i + n);
            let collided = exists|row: int, col: int|
                #[trigger] sprite_pixel_on(sprite, row, col) && m.display.pixels[pixel_index(
                    vx + col,
                    vy + row,
                )];
            &&& s.cpu.registers[FLAG as int] == (if collided { 1u8 } else { 0u8 })
            &&& forall|p: int|
                0 <= p < DISPLAY_SIZE ==> #[trigger] s.display.pixels[p] == (m.display.pixels[p]
                    != sprite_covers(vx, vy, sprite, p))
            &&& s.display.pixels.len() == DISPLAY_SIZE
            &&& s.display.dirty
            &&& forall|k: int| 0 <= k < 16 && k != FLAG ==> #[trigger] s.cpu.registers[k]
                == m.cpu.registers[k]
            &&& s.cpu.i == m.cpu.i && s.ram == m.ram && s.cpu.pc == pc_plus(m.cpu.pc, 2)
        },
{
    lemma_decode_in_range(fetched_opcode(m.cpu, m.ram));
    if let Instruction::Drw(x, y, n) = next_instruction(m.cpu, m.ram) {
        let vx = m.cpu.registers[x as int] as int;
        let vy = m.cpu.registers[y as int] as int;
        let sprite = m.ram.subrange(m.cpu.i as int, m.cpu.i + n);
        lemma_draw_direct(m.display.pixels, vx, vy, sprite);
    }
}

/// Key input: `FX0A` with some key held stores the lowest held key in Vx and
/// moves on; with no key held it changes nothing, so it runs again.
pub proof fn lemma_wait_key(m: MachineState, random: u8)
    requires
        m.wf(),
        can_step(m.cpu, m.ram, m.keys),
    ensures
        next_instruction(m.cpu, m.ram) matches Instruction::LdVxK(x) ==> {
            let s = step(m, random);
            let k = s.cpu.registers[x as int];
            if exists|j: int| 0 <= j < 16 && #[trigger] m.keys[j] {
                &&& k < 16 && m.keys[k as int]
                &&& forall|j: int| 0 <= j < k ==> !#[trigger] m.keys[j]
                &&& s.cpu.pc == pc_plus(m.cpu.pc, 2)
                &&& same_but_registers(s, m, set![x as int])
            } else {
                s == m
            }
        },
{
    lemma_decode_in_range(fetched_opcode(m.cpu, m.ram));
    if let Instruction::LdVxK(x) = next_instruction(m.cpu, m.ram) {
        crate::keypad::lemma_first_pressed(m.keys);
        assert(step(m, random) =~= m || exists|j: int| 0 <= j < 16 && #[trigger] m.keys[j]);
    }
}

/// Timers and I: `FX07` copies the delay timer into Vx, `FX15` and `FX18`
/// load the delay and sound timers from Vx, `ANNN` sets I to NNN, `FX1E`
/// adds Vx to I modulo 2^16 and `FX29` points I at the five-byte glyph of
/// the digit Vx, which starts at 0x50; the program counter moves on by two.
pub proof fn lemma_timers_and_index(m: MachineState, random: u8)
    requires
        m.wf(),
        can_step(m.cpu, m.ram, m.keys),
    ensures
        ({
            let s = step(m, random);
            let c = m.cpu;
            let ins = next_instruction(m.cpu, m.ram);
            &&& !(ins is Jp || ins is JpV0 || ins is Call || ins is Ret || ins is SeVxByte
                || ins is SneVxByte || ins is SeVxVy || ins is SneVxVy || ins is Skp || ins is Sknp
                || ins is LdVxK) ==> s.cpu.pc == pc_plus(c.pc, 2)
            &&& ins matches Instruction::LdVxDt(x) ==> s.cpu.registers[x as int] == c.delay_timer
                && same_but_registers(s, m, set![x as int])
            &&& ins matches Instruction::LdDtVx(x) ==> s.cpu.delay_timer == c.registers[x as int]
                && s.cpu.sound_timer == c.sound_timer && s.cpu.registers == c.registers
            &&& ins matches Instruction::LdStVx(x) ==> s.cpu.sound_timer == c.registers[x as int]
                && s.cpu.delay_timer == c.delay_timer && s.cpu.registers == c.registers
            &&& ins matches Instruction::LdI(nnn) ==> s.cpu.i == nnn && s.cpu.registers
                == c.registers
            &&& ins matches Instruction::AddIVx(x) ==> s.cpu.i == (c.i + c.registers[x as int])
                % 0x10000 && s.cpu.registers == c.registers
            &&& ins matches Instruction::LdFVx(x) ==> s.cpu.i == 0x50 + 5 * c.registers[x as int]
                && s.cpu.registers == c.registers
        }),
{
    lemma_decode_in_range(fetched_opcode(m.cpu, m.ram));
}

/// Memory transfers: `FX33` stores three decimal digits at I, I+1, I+2 that
/// read as hundreds, tens and ones give Vx; `FX55` stores V0..=Vx at
/// I..=I+x; `FX65` loads V0..=Vx from I..=I+x. Other bytes and registers,
/// and I itself, stay.
pub proof fn lemma_memory_transfers(m: MachineState, random: u8)
    requires
        m.wf(),
        can_step(m.cpu, m.ram, m.keys),
    ensures
        ({
            let s = step(m, random);
            let c = m.cpu;
            let i = c.i as int;
            let ins = next_instruction(m.cpu, m.ram);
            &&& ins matches Instruction::LdBVx(x) ==> {
                &&& s.ram[i] < 10 && s.ram[i + 1] < 10 && s.ram[i + 2] < 10
                &&& 100 * s.ram[i] + 10 * s.ram[i + 1] + s.ram[i + 2] == c.registers[x as int]
                &&& forall|a: int| 0 <= a < MEMORY_SIZE && !(i <= a < i + 3) ==> #[trigger] s.ram[a]
                    == m.ram[a]
                &&& s.cpu.registers == c.registers && s.cpu.i == c.i
            }
            &&& ins matches Instruction::LdIVx(x) ==> {
                &&& forall|k: int| 0 <= k <= x ==> #[trigger] s.ram[i + k] == c.registers[k]
                &&& forall|a: int| 0 <= a < MEMORY_SIZE && !(i <= a <= i + x) ==> #[trigger] s.ram[a]
                    == m.ram[a]
                &&& s.ram.len() == MEMORY_SIZE
                &&& s.cpu.registers == c.registers && s.cpu.i == c.i
            }
            &&& ins matches Instruction::LdVxI(x) ==> {
                &&& forall|k: int| 0 <= k <= x ==> #[trigger] s.cpu.registers[k] == m.ram[i + k]
                &&& forall|k: int| x < k < 16 ==> #[trigger] s.cpu.registers[k] == c.registers[k]
                &&& s.ram == m.ram && s.cpu.i == c.i
            }
        }),
{
    lemma_decode_in_range(fetched_opcode(m.cpu, m.ram));
    if let Instruction::LdBVx(x) = next_instruction(m.cpu, m.ram) {
        crate::memory::lemma_bcd_digits(m.cpu.registers[x as int]);
    }
}

/// `00E0` switches every pixel off and marks the screen for a draw; no
/// register, RAM or I changes.
pub proof fn lemma_clear_screen(m: MachineState, random: u8)
    requires
        m.wf(),
        can_step(m.cpu, m.ram, m.keys),
        next_instruction(m.cpu, m.ram) is Cls,
    ensures
        forall|p: int| 0 <= p < DISPLAY_SIZE ==> !#[trigger] step(m, random).display.pixels[p],
        step(m, random).display.pixels.len() == DISPLAY_SIZE,
        step(m, random).display.dirty,
        step(m, random).cpu.pc == pc_plus(m.cpu.pc, 2),
        same_but_registers(
            MachineState { display: m.display, ..step(m, random) },
            m,
            Set::empty(),
        ),
{
}

} // verus!
