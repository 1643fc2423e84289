use vstd::prelude::*;

use crate::display::{
    blank_pixels, draw_spec, lemma_draw_keeps_size, Display, DisplayState, DISPLAY_SIZE,
};
use crate::keypad::{first_pressed, Keypad};
use crate::memory::{write_seq, Memory, FONT_START, MEMORY_SIZE, PROGRAM_START};
use crate::opcode::{decode_spec, Instruction};

verus! {

/// Depth of the call stack.
pub const STACK_SIZE: usize = 16;

/// Index of the flag register VF.
pub const FLAG: usize = 0xF;

/// The abstract state of the CPU.
#[verifier::ext_equal]
pub struct CpuState {
    pub registers: Seq<u8>,
    pub i: u16,
    pub pc: u16,
    pub stack: Seq<u16>,
    pub sp: u8,
    pub delay_timer: u8,
    pub sound_timer: u8,
}

/// The abstract state of a whole machine: CPU, RAM, screen and keypad.
#[verifier::ext_equal]
pub struct MachineState {
    pub cpu: CpuState,
    pub ram: Seq<u8>,
    pub display: DisplayState,
    pub keys: Seq<bool>,
}

/// `v` reduced to sixteen bits, as wrapping arithmetic on `u16` does.
pub open spec fn wrap16(v: int) -> u16 {
    (v % 0x10000) as u16
}

/// `v` reduced to eight bits, as wrapping arithmetic on `u8` does.
pub open spec fn wrap8(v: int) -> u8 {
    (v % 0x100) as u8
}

/// The CPU state after power-on or reset: everything zero but the program
/// counter, which points at `PROGRAM_START`.
pub open spec fn initial_cpu() -> CpuState {
    CpuState {
        registers: Seq::new(16, |k: int| 0u8),
        i: 0,
        pc: PROGRAM_START,
        stack: Seq::new(STACK_SIZE as nat, |k: int| 0u16),
        sp: 0,
        delay_timer: 0,
        sound_timer: 0,
    }
}

impl CpuState {
    pub open spec fn with_pc(self, pc: u16) -> CpuState {
        CpuState { pc, ..self }
    }

    pub open spec fn with_registers(self, registers: Seq<u8>) -> CpuState {
        CpuState { registers, ..self }
    }
}

impl MachineState {
    /// Every component has the size of the hardware it models.
    pub open spec fn wf(self) -> bool {
        &&& self.cpu.registers.len() == 16
        &&& self.cpu.stack.len() == STACK_SIZE
        &&& self.ram.len() == MEMORY_SIZE
        &&& self.display.pixels.len() == DISPLAY_SIZE
        &&& self.keys.len() == 16
    }

    pub open spec fn with_cpu(self, cpu: CpuState) -> MachineState {
        MachineState { cpu, ..self }
    }

    pub open spec fn with_pc(self, pc: u16) -> MachineState {
        self.with_cpu(self.cpu.with_pc(pc))
    }

    pub open spec fn with_registers(self, registers: Seq<u8>) -> MachineState {
        self.with_cpu(self.cpu.with_registers(registers))
    }

    /// Skips the next instruction when `cond` holds.
    pub open spec fn skip_if(self, cond: bool) -> MachineState {
        if cond {
            self.with_pc(wrap16(self.cpu.pc + 2))
        } else {
            self
        }
    }
}

/// What executing `ins` does to machine `m` (whose program counter already
/// points past `ins`); `random` is the byte that `Rnd` draws.
pub open spec fn execute_spec(m: MachineState, ins: Instruction, random: u8) -> MachineState {
    let c = m.cpu;
    let r = c.registers;
    match ins {
        Instruction::Cls => MachineState {
            display: DisplayState { pixels: blank_pixels(), dirty: true },
            ..m
        },
        Instruction::Ret => m.with_cpu(
            CpuState { pc: c.stack[c.sp - 1], sp: (c.sp - 1) as u8, ..c },
        ),
        Instruction::Jp(addr) => m.with_pc(addr),
        Instruction::Call(addr) => m.with_cpu(
            CpuState { stack: c.stack.update(c.sp as int, c.pc), sp: (c.sp + 1) as u8, pc: addr, ..c },
        ),
        Instruction::SeVxByte(x, kk) => m.skip_if(r[x as int] == kk),
        Instruction::SneVxByte(x, kk) => m.skip_if(r[x as int] != kk),
        Instruction::SeVxVy(x, y) => m.skip_if(r[x as int] == r[y as int]),
        Instruction::LdVxByte(x, kk) => m.with_registers(r.update(x as int, kk)),
        Instruction::AddVxByte(x, kk) => m.with_registers(r.update(x as int, wrap8(r[x as int] + kk))),
        Instruction::LdVxVy(x, y) => m.with_registers(r.update(x as int, r[y as int])),
        Instruction::OrVxVy(x, y) => m.with_registers(r.update(x as int, r[x as int] | r[y as int])),
        Instruction::AndVxVy(x, y) => m.with_registers(r.update(x as int, r[x as int] & r[y as int])),
        Instruction::XorVxVy(x, y) => m.with_registers(r.update(x as int, r[x as int] ^ r[y as int])),
        Instruction::AddVxVy(x, y) => m.with_registers(
            r.update(FLAG as int, if r[x as int] + r[y as int] > 0xFF { 1u8 } else { 0u8 }).update(
                x as int,
                wrap8(r[x as int] + r[y as int]),
            ),
        ),
        Instruction::SubVxVy(x, y) => m.with_registers(
            r.update(x as int, wrap8(r[x as int] - r[y as int])).update(
                FLAG as int,
                if r[x as int] >= r[y as int] { 1u8 } else { 0u8 },
            ),
        ),
        Instruction::ShrVx(x) => m.with_registers(
            r.update(FLAG as int, r[x as int] % 2).update(x as int, r[x as int] / 2),
        ),
        Instruction::SubnVxVy(x, y) => m.with_registers(
            r.update(x as int, wrap8(r[y as int] - r[x as int])).update(
                FLAG as int,
                if r[y as int] >= r[x as int] { 1u8 } else { 0u8 },
            ),
        ),
        Instruction::ShlVx(x) => m.with_registers(
            r.update(FLAG as int, r[x as int] / 128).update(x as int, wrap8(r[x as int] * 2)),
        ),
        Instruction::SneVxVy(x, y) => m.skip_if(r[x as int] != r[y as int]),
        Instruction::LdI(nnn) => m.with_cpu(CpuState { i: nnn, ..c }),
        Instruction::JpV0(nnn) => m.with_pc((nnn + r[0]) as u16),
        Instruction::Rnd(x, kk) => m.with_registers(r.update(x as int, random & kk)),
        Instruction::Drw(x, y, n) => {
            let drawn = draw_spec(
                m.display.pixels,
                r[x as int] as int,
                r[y as int] as int,
                m.ram.subrange(c.i as int, c.i + n),
            );
            MachineState {
                cpu: c.with_registers(r.update(FLAG as int, if drawn.1 { 1u8 } else { 0u8 })),
                display: DisplayState { pixels: drawn.0, dirty: true },
                ..m
            }
        },
        Instruction::Skp(x) => m.skip_if(m.keys[r[x as int] as int]),
        Instruction::Sknp(x) => m.skip_if(!m.keys[r[x as int] as int]),
        Instruction::LdVxDt(x) => m.with_registers(r.update(x as int, c.delay_timer)),
        Instruction::LdVxK(x) => match first_pressed(m.keys) {
            Some(key) => m.with_registers(r.update(x as int, key)),
            None => m.with_pc(wrap16(c.pc - 2)),
        },
        Instruction::LdDtVx(x) => m.with_cpu(CpuState { delay_timer: r[x as int], ..c }),
        Instruction::LdStVx(x) => m.with_cpu(CpuState { sound_timer: r[x as int], ..c }),
        Instruction::AddIVx(x) => m.with_cpu(CpuState { i: wrap16(c.i + r[x as int]), ..c }),
        Instruction::LdFVx(x) => m.with_cpu(CpuState { i: (FONT_START + r[x as int] * 5) as u16, ..c }),
        Instruction::LdBVx(x) => MachineState {
            ram: m.ram.update(c.i as int, r[x as int] / 100).update(
                c.i + 1,
                (r[x as int] / 10) % 10,
            ).update(c.i + 2, r[x as int] % 10),
            ..m
        },
        Instruction::LdIVx(x) => MachineState {
            ram: write_seq(m.ram, c.i as int, r.subrange(0, x + 1)),
            ..m
        },
        Instruction::LdVxI(x) => m.with_registers(
            write_seq(r, 0, m.ram.subrange(c.i as int, c.i + x + 1)),
        ),
        Instruction::Unknown(_) => m,
    }
}

/// Executing `ins` from CPU state `c` with keys `keys` runs without fault:
/// register operands name registers, the stack neither overflows nor
/// underflows, `JpV0` does not overflow its target, and nothing is read or
/// written outside RAM or the keypad.
pub open spec fn can_execute(c: CpuState, keys: Seq<bool>, ins: Instruction) -> bool {
    match ins {
        Instruction::Cls | Instruction::Jp(_) | Instruction::LdI(_) | Instruction::Unknown(_) => true,
        Instruction::Ret => 1 <= c.sp <= STACK_SIZE,
        Instruction::Call(_) => c.sp < STACK_SIZE,
        Instruction::SeVxByte(x, _) | Instruction::SneVxByte(x, _) | Instruction::LdVxByte(x, _)
        | Instruction::AddVxByte(x, _) | Instruction::Rnd(x, _) => x < 16,
        Instruction::SeVxVy(x, y) | Instruction::LdVxVy(x, y) | Instruction::OrVxVy(x, y)
        | Instruction::AndVxVy(x, y) | Instruction::XorVxVy(x, y) | Instruction::AddVxVy(x, y)
        | Instruction::SubVxVy(x, y) | Instruction::SubnVxVy(x, y) | Instruction::SneVxVy(x, y) => x
            < 16 && y < 16,
        Instruction::ShrVx(x) | Instruction::ShlVx(x) | Instruction::LdVxDt(x)
        | Instruction::LdDtVx(x) | Instruction::LdStVx(x) | Instruction::AddIVx(x)
        | Instruction::LdFVx(x) => x < 16,
        Instruction::LdVxK(x) => x < 16 || first_pressed(keys) is None,
        Instruction::JpV0(nnn) => nnn + c.registers[0] <= 0xFFFF,
        Instruction::Drw(x, y, n) => x < 16 && y < 16 && c.i + n <= MEMORY_SIZE,
        Instruction::Skp(x) | Instruction::Sknp(x) => x < 16 && c.registers[x as int] < 16,
        Instruction::LdBVx(x) => x < 16 && c.i + 2 < MEMORY_SIZE,
        Instruction::LdIVx(x) | Instruction::LdVxI(x) => x < 16 && c.i + x + 1 <= MEMORY_SIZE,
    }
}

/// The opcode stored big-endian at the program counter.
pub open spec fn fetched_opcode(c: CpuState, ram: Seq<u8>) -> u16 {
    (ram[c.pc as int] * 256 + ram[c.pc + 1]) as u16
}

/// The instruction at the program counter.
pub open spec fn next_instruction(c: CpuState, ram: Seq<u8>) -> Instruction {
    decode_spec(fetched_opcode(c, ram))
}

/// One fetch-decode-execute cycle from CPU state `c` with RAM `ram` and keys
/// `keys` runs without fault.
pub open spec fn can_step(c: CpuState, ram: Seq<u8>, keys: Seq<bool>) -> bool {
    &&& c.pc + 1 < MEMORY_SIZE
    &&& can_execute(c.with_pc(wrap16(c.pc + 2)), keys, next_instruction(c, ram))
}

/// One fetch-decode-execute cycle: the program counter moves past the
/// opcode, which is then executed.
pub open spec fn step(m: MachineState, random: u8) -> MachineState {
    execute_spec(m.with_pc(wrap16(m.cpu.pc + 2)), next_instruction(m.cpu, m.ram), random)
}

/// The abstract state of a machine made of these parts.
pub open spec fn machine(cpu: Cpu, memory: Memory, display: Display, keypad: Keypad) -> MachineState {
    MachineState { cpu: cpu@, ram: memory@, display: display@, keys: keypad.keys@ }
}

/// Each instruction touches only its own part of the machine: the screen
/// changes only by `Cls` and `Drw`, RAM only by `LdBVx` and `LdIVx`, the
/// stack only by `Call` and `Ret`, I only by `LdI`, `AddIVx` and `LdFVx`, each
/// timer only by the instruction that loads it, and the keys never.
pub proof fn lemma_execute_frame(m: MachineState, ins: Instruction, random: u8)
    ensures
        !(ins is Cls || ins is Drw) ==> execute_spec(m, ins, random).display == m.display,
        !(ins is LdBVx || ins is LdIVx) ==> execute_spec(m, ins, random).ram == m.ram,
        !(ins is Call || ins is Ret) ==> execute_spec(m, ins, random).cpu.stack == m.cpu.stack
            && execute_spec(m, ins, random).cpu.sp == m.cpu.sp,
        !(ins is LdI || ins is AddIVx || ins is LdFVx) ==> execute_spec(m, ins, random).cpu.i
            == m.cpu.i,
        !(ins is LdDtVx) ==> execute_spec(m, ins, random).cpu.delay_timer == m.cpu.delay_timer,
        !(ins is LdStVx) ==> execute_spec(m, ins, random).cpu.sound_timer == m.cpu.sound_timer,
        execute_spec(m, ins, random).keys == m.keys,
{
}

/// Every instruction but the jumps, calls, returns, conditional skips and
/// `LdVxK` moves on to the next instruction: one step advances the program
/// counter by two.
pub proof fn lemma_step_advances_pc(m: MachineState, random: u8)
    requires
        !(next_instruction(m.cpu, m.ram) is Jp || next_instruction(m.cpu, m.ram) is Call
            || next_instruction(m.cpu, m.ram) is Ret || next_instruction(m.cpu, m.ram) is JpV0
            || next_instruction(m.cpu, m.ram) is SeVxByte || next_instruction(m.cpu, m.ram) is SneVxByte
            || next_instruction(m.cpu, m.ram) is SeVxVy || next_instruction(m.cpu, m.ram) is SneVxVy
            || next_instruction(m.cpu, m.ram) is Skp || next_instruction(m.cpu, m.ram) is Sknp
            || next_instruction(m.cpu, m.ram) is LdVxK),
    ensures
        step(m, random).cpu.pc == wrap16(m.cpu.pc + 2),
{
}

/// A subroutine return undoes a call: after `Call(addr)` and then `Ret`, the
/// program counter and stack pointer are back where they were and nothing
/// else has changed but the stack slot that held the return address.
pub proof fn lemma_ret_undoes_call(m: MachineState, addr: u16, random: u8)
    requires
        m.wf(),
        m.cpu.sp < STACK_SIZE,
    ensures
        can_execute(m.cpu, m.keys, Instruction::Call(addr)),
        can_execute(
            execute_spec(m, Instruction::Call(addr), random).cpu,
            m.keys,
            Instruction::Ret,
        ),
        execute_spec(execute_spec(m, Instruction::Call(addr), random), Instruction::Ret, random)
            == m.with_cpu(
            CpuState { stack: m.cpu.stack.update(m.cpu.sp as int, m.cpu.pc), ..m.cpu },
        ),
{
    let after = execute_spec(
        execute_spec(m, Instruction::Call(addr), random),
        Instruction::Ret,
        random,
    );
    assert(after =~= m.with_cpu(
        CpuState { stack: m.cpu.stack.update(m.cpu.sp as int, m.cpu.pc), ..m.cpu },
    ));
}

/// The same, one fetch-decode-execute cycle at a time, as `tick` runs it: a
/// `Call` at `pc` to a subroutine whose first instruction is `Ret` comes
/// back, two steps later, to the instruction after the call with the stack
/// pointer restored; registers, I, timers, RAM, screen and keys are as
/// before, and the stack slot above the old top holds the return address.
pub proof fn lemma_step_ret_undoes_call(m: MachineState, random1: u8, random2: u8)
    requires
        m.wf(),
        m.cpu.sp < STACK_SIZE,
        can_step(m.cpu, m.ram, m.keys),
        next_instruction(m.cpu, m.ram) is Call,
        step(m, random1).cpu.pc + 1 < MEMORY_SIZE,
        next_instruction(step(m, random1).cpu, m.ram) is Ret,
    ensures
        can_step(step(m, random1).cpu, step(m, random1).ram, step(m, random1).keys),
        step(step(m, random1), random2) == m.with_cpu(
            CpuState {
                pc: wrap16(m.cpu.pc + 2),
                stack: m.cpu.stack.update(m.cpu.sp as int, wrap16(m.cpu.pc + 2)),
                ..m.cpu
            },
        ),
{
    let s1 = step(m, random1);
    let s2 = step(s1, random2);
    assert(s1.ram == m.ram);
    assert(s2 =~= m.with_cpu(
        CpuState {
            pc: wrap16(m.cpu.pc + 2),
            stack: m.cpu.stack.update(m.cpu.sp as int, wrap16(m.cpu.pc + 2)),
            ..m.cpu
        },
    ));
}

/// Registers stored with `LdIVx(x)` come back with `LdVxI(x)`: whatever
/// happened to the registers in between, as long as I and the stored bytes
/// are untouched, the load restores V0..=Vx to their stored values, leaves
/// the registers above Vx as they are, and moves neither I nor RAM.
pub proof fn lemma_store_then_load_registers(
    m: MachineState,
    later: MachineState,
    x: u8,
    random1: u8,
    random2: u8,
)
    requires
        m.wf(),
        later.wf(),
        x < 16,
        m.cpu.i + x + 1 <= MEMORY_SIZE,
        later.cpu.i == m.cpu.i,
        later.ram.subrange(m.cpu.i as int, m.cpu.i + x + 1) == execute_spec(
            m,
            Instruction::LdIVx(x),
            random1,
        ).ram.subrange(m.cpu.i as int, m.cpu.i + x + 1),
    ensures
        can_execute(m.cpu, m.keys, Instruction::LdIVx(x)),
        can_execute(later.cpu, later.keys, Instruction::LdVxI(x)),
        forall|k: int|
            0 <= k <= x ==> #[trigger] execute_spec(
                later,
                Instruction::LdVxI(x),
                random2,
            ).cpu.registers[k] == m.cpu.registers[k],
        forall|k: int|
            x < k < 16 ==> #[trigger] execute_spec(
                later,
                Instruction::LdVxI(x),
                random2,
            ).cpu.registers[k] == later.cpu.registers[k],
        execute_spec(later, Instruction::LdVxI(x), random2) == later.with_registers(
            execute_spec(later, Instruction::LdVxI(x), random2).cpu.registers,
        ),
{
    let stored = execute_spec(m, Instruction::LdIVx(x), random1);
    crate::memory::lemma_write_then_read(
        m.ram,
        m.cpu.i as int,
        m.cpu.registers.subrange(0, x + 1),
    );
    let loaded = execute_spec(later, Instruction::LdVxI(x), random2);
    assert forall|k: int| 0 <= k <= x implies #[trigger] loaded.cpu.registers[k]
        == m.cpu.registers[k] by {
        assert(later.ram.subrange(m.cpu.i as int, m.cpu.i + x + 1)[k] == later.ram[m.cpu.i + k]);
        assert(stored.ram.subrange(m.cpu.i as int, m.cpu.i + x + 1)[k] == stored.ram[m.cpu.i
            + k]);
    }
}

/// The same, one fetch-decode-execute cycle at a time, as `tick` runs it: a
/// step at `LdIVx(x)` stores V0..=Vx, and a later step at `LdVxI(x)` with the
/// same I and those bytes untouched gives them back, whatever the registers
/// held in between; the registers above Vx and I are left alone.
pub proof fn lemma_step_store_then_load_registers(
    m: MachineState,
    later: MachineState,
    x: u8,
    random1: u8,
    random2: u8,
)
    requires
        m.wf(),
        later.wf(),
        can_step(m.cpu, m.ram, m.keys),
        can_step(later.cpu, later.ram, later.keys),
        next_instruction(m.cpu, m.ram) == Instruction::LdIVx(x),
        next_instruction(later.cpu, later.ram) == Instruction::LdVxI(x),
        later.cpu.i == m.cpu.i,
        later.ram.subrange(m.cpu.i as int, m.cpu.i + x + 1) == step(m, random1).ram.subrange(
            m.cpu.i as int,
            m.cpu.i + x + 1,
        ),
    ensures
        forall|k: int|
            0 <= k <= x ==> #[trigger] step(later, random2).cpu.registers[k]
                == m.cpu.registers[k],
        forall|k: int|
            x < k < 16 ==> #[trigger] step(later, random2).cpu.registers[k]
                == later.cpu.registers[k],
        step(later, random2).cpu.i == later.cpu.i,
        step(later, random2).ram == later.ram,
{
    lemma_store_then_load_registers(
        m.with_pc(wrap16(m.cpu.pc + 2)),
        later.with_pc(wrap16(later.cpu.pc + 2)),
        x,
        random1,
        random2,
    );
}

/// `LdVxK` waits for a key: while no key is held, a step at it changes
/// nothing, so the machine keeps executing the same instruction.
pub proof fn lemma_wait_for_key(m: MachineState, random: u8)
    requires
        m.wf(),
        can_step(m.cpu, m.ram, m.keys),
        next_instruction(m.cpu, m.ram) is LdVxK,
        first_pressed(m.keys) is None,
    ensures
        step(m, random) == m,
{
    assert(step(m, random) =~= m);
}

/// A step that can run keeps every part of the machine at the size of the
/// hardware, and keeps the stack pointer within the stack.
pub proof fn lemma_step_keeps_shape(m: MachineState, random: u8)
    requires
        m.wf(),
        m.cpu.sp <= STACK_SIZE,
        can_step(m.cpu, m.ram, m.keys),
    ensures
        step(m, random).wf(),
        step(m, random).cpu.sp <= STACK_SIZE,
{
    let ins = next_instruction(m.cpu, m.ram);
    let f = m.with_pc(wrap16(m.cpu.pc + 2));
    let r = f.cpu.registers;
    crate::opcode::lemma_decode_in_range(fetched_opcode(m.cpu, m.ram));
    match ins {
        Instruction::Drw(x, y, n) => {
            lemma_draw_keeps_size(
                f.display.pixels,
                r[x as int] as int,
                r[y as int] as int,
                f.ram.subrange(f.cpu.i as int, f.cpu.i + n),
            );
        },
        Instruction::LdIVx(x) => {
            crate::memory::lemma_write_then_read(f.ram, f.cpu.i as int, r.subrange(0, x + 1));
        },
        Instruction::LdVxI(x) => {
            crate::memory::lemma_write_then_read(
                r,
                0,
                f.ram.subrange(f.cpu.i as int, f.cpu.i + x + 1),
            );
        },
        _ => {},
    }
}

/// A step that changes the screen marks it as needing a draw, so a frontend
/// that only redraws dirty screens never misses a change.
pub proof fn lemma_step_marks_display_changes(m: MachineState, random: u8)
    requires
        m.wf(),
        can_step(m.cpu, m.ram, m.keys),
    ensures
        step(m, random).display.pixels != m.display.pixels ==> step(m, random).display.dirty,
        !m.display.dirty && !step(m, random).display.dirty ==> step(m, random).display
            == m.display,
{
}

/// Calls `rand::random::<u8>()`, which draws a byte from the thread-local
/// generator. No contract: nothing is claimed of the byte, so every proof
/// that goes through this call holds for any value of it.
#[verifier::external_body]
fn random_byte() -> u8 {
    rand::random::<u8>()
}

/// Registers, index register, program counter, call stack and timers.
pub struct Cpu {
    pub registers: [u8; 16],
    pub i: u16,
    pub pc: u16,
    pub stack: [u16; STACK_SIZE],
    pub sp: u8,
    pub delay_timer: u8,
    pub sound_timer: u8,
}

impl View for Cpu {
    type V = CpuState;

    open spec fn view(&self) -> CpuState {
        CpuState {
            registers: self.registers@,
            i: self.i,
            pc: self.pc,
            stack: self.stack@,
            sp: self.sp,
            delay_timer: self.delay_timer,
            sound_timer: self.sound_timer,
        }
    }
}

impl Cpu {
    /// A CPU in its power-on state.
    pub fn new() -> (cpu: Self)
        ensures
            cpu@ == initial_cpu(),
    {
        let cpu = Cpu {
            registers: [0; 16],
            i: 0,
            pc: 0x200,
            stack: [0; STACK_SIZE],
            sp: 0,
            delay_timer: 0,
            sound_timer: 0,
        };
        assert(cpu@ =~= initial_cpu());
        cpu
    }

    /// Returns the CPU to its power-on state.
    pub fn reset(&mut self)
        ensures
            final(self)@ == initial_cpu(),
    {
        self.registers = [0; 16];
        self.i = 0;
        self.pc = 0x200;
        self.stack = [0; STACK_SIZE];
        self.sp = 0;
        self.delay_timer = 0;
        self.sound_timer = 0;
        assert(self@ =~= initial_cpu());
    }

    fn push(&mut self, value: u16)
        requires
            old(self).sp < STACK_SIZE,
        ensures
            final(self)@ == (CpuState {
                stack: old(self)@.stack.update(old(self).sp as int, value),
                sp: (old(self).sp + 1) as u8,
                ..old(self)@
            }),
    {
        self.stack[self.sp as usize] = value;
        self.sp += 1;
    }

    fn pop(&mut self) -> (value: u16)
        requires
            1 <= old(self).sp <= STACK_SIZE,
        ensures
            value == old(self)@.stack[old(self).sp - 1],
            final(self)@ == (CpuState { sp: (old(self).sp - 1) as u8, ..old(self)@ }),
    {
        self.sp -= 1;
        self.stack[self.sp as usize]
    }

    /// Whether the next `tick` runs without fault: the opcode lies inside
    /// RAM, and the instruction neither overflows nor underflows the stack
    /// nor reaches outside RAM or the keypad.
    pub fn can_tick(&self, memory: &Memory, keypad: &Keypad) -> (ok: bool)
        ensures
            ok == can_step(self@, memory@, keypad.keys@),
    {
        if self.pc as usize + 1 >= MEMORY_SIZE {
            return false;
        }
        let opcode = memory.read_word(self.pc);
        let i = self.i as usize;
        let sp = self.sp as usize;
        match Instruction::decode(opcode) {
            Instruction::Ret => 1 <= sp && sp <= STACK_SIZE,
            Instruction::Call(_) => sp < STACK_SIZE,
            Instruction::Drw(_, _, n) => i + n as usize <= MEMORY_SIZE,
            Instruction::Skp(x) | Instruction::Sknp(x) => self.registers[x as usize] < 16,
            Instruction::LdBVx(_) => i + 2 < MEMORY_SIZE,
            Instruction::LdIVx(x) | Instruction::LdVxI(x) => i + x as usize + 1 <= MEMORY_SIZE,
            _ => true,
        }
    }

    /// Fetches, decodes and executes one instruction. `Rnd` draws its byte
    /// from `rand`; every other instruction behaves as `step` says with any
    /// random byte.
    pub fn tick(&mut self, memory: &mut Memory, display: &mut Display, keypad: &Keypad)
        requires
            can_step(old(self)@, old(memory)@, keypad.keys@),
        ensures
            exists|random: u8|
                machine(*final(self), *final(memory), *final(display), *keypad) == #[trigger] step(
                    machine(*old(self), *old(memory), *old(display), *keypad),
                    random,
                ),
            !(next_instruction(old(self)@, old(memory)@) is Rnd) ==> machine(
                *final(self),
                *final(memory),
                *final(display),
                *keypad,
            ) == step(machine(*old(self), *old(memory), *old(display), *keypad), 0),
    {
        let opcode = self.fetch(memory);
        let current_instruction = Instruction::decode(opcode);
        let random = match current_instruction {
            Instruction::Rnd(_, _) => random_byte(),
            _ => 0,
        };
        self.execute(current_instruction, random, memory, display, keypad);
        assert(machine(*self, *memory, *display, *keypad) == step(
            machine(*old(self), *old(memory), *old(display), *keypad),
            random,
        ));
    }

    /// Fetches, decodes and executes one instruction, with `random` as the
    /// byte that an `Rnd` instruction draws.
    pub fn tick_with_random(
        &mut self,
        random: u8,
        memory: &mut Memory,
        display: &mut Display,
        keypad: &Keypad,
    )
        requires
            can_step(old(self)@, old(memory)@, keypad.keys@),
        ensures
            machine(*final(self), *final(memory), *final(display), *keypad) == step(
                machine(*old(self), *old(memory), *old(display), *keypad),
                random,
            ),
    {
        let opcode = self.fetch(memory);
        let current_instruction = Instruction::decode(opcode);
        self.execute(current_instruction, random, memory, display, keypad);
    }

    /// Counts both timers down by one, stopping at zero.
    pub fn tick_timers(&mut self)
        ensures
            final(self)@ == (CpuState {
                delay_timer: if old(self).delay_timer > 0 {
                    (old(self).delay_timer - 1) as u8
                } else {
                    0
                },
                sound_timer: if old(self).sound_timer > 0 {
                    (old(self).sound_timer - 1) as u8
                } else {
                    0
                },
                ..old(self)@
            }),
    {
        if self.delay_timer > 0 {
            self.delay_timer -= 1;
        }
        if self.sound_timer > 0 {
            self.sound_timer -= 1;
        }
    }

    fn fetch(&mut self, memory: &Memory) -> (opcode: u16)
        requires
            old(self).pc + 1 < MEMORY_SIZE,
        ensures
            opcode == fetched_opcode(old(self)@, memory@),
            final(self)@ == old(self)@.with_pc(wrap16(old(self).pc + 2)),
    {
        let opcode: u16 = memory.read_word(self.pc);
        self.pc = self.pc.wrapping_add(2);
        opcode
    }

    /// Whether the sound timer is running, i.e. the buzzer should sound.
    pub fn is_sound_playing(&self) -> (playing: bool)
        ensures
            playing == (self.sound_timer > 0),
    {
        self.sound_timer > 0
    }

    fn skip_if(&mut self, cond: bool)
        ensures
            final(self)@ == (if cond {
                old(self)@.with_pc(wrap16(old(self).pc + 2))
            } else {
                old(self)@
            }),
    {
        if cond {
            self.pc = self.pc.wrapping_add(2);
        }
    }

    fn execute(
        &mut self,
        instruction: Instruction,
        random: u8,
        memory: &mut Memory,
        display: &mut Display,
        keypad: &Keypad,
    )
        requires
            can_execute(old(self)@, keypad.keys@, instruction),
        ensures
            machine(*final(self), *final(memory), *final(display), *keypad) == execute_spec(
                machine(*old(self), *old(memory), *old(display), *keypad),
                instruction,
                random,
            ),
    {
        match instruction {
            Instruction::Cls => {
                display.clear();
            },
            Instruction::Ret => self.op_ret(),
            Instruction::Jp(addr) => self.pc = addr,
            Instruction::Call(addr) => self.op_call(addr),
            Instruction::SeVxByte(x, kk) => {
                let cond = self.registers[x as usize] == kk;
                self.skip_if(cond);
            },
            Instruction::SneVxByte(x, kk) => {
                let cond = self.registers[x as usize] != kk;
                self.skip_if(cond);
            },
            Instruction::SeVxVy(x, y) => {
                let cond = self.registers[x as usize] == self.registers[y as usize];
                self.skip_if(cond);
            },
            Instruction::LdVxByte(x, kk) => self.registers[x as usize] = kk,
            Instruction::AddVxByte(x, kk) => {
                self.registers[x as usize] = self.registers[x as usize].wrapping_add(kk)
            },
            Instruction::LdVxVy(x, y) => self.registers[x as usize] = self.registers[y as usize],
            Instruction::OrVxVy(x, y) => {
                self.registers[x as usize] = self.registers[x as usize] | self.registers[y as usize]
            },
            Instruction::AndVxVy(x, y) => {
                self.registers[x as usize] = self.registers[x as usize] & self.registers[y as usize]
            },
            Instruction::XorVxVy(x, y) => {
                self.registers[x as usize] = self.registers[x as usize] ^ self.registers[y as usize]
            },
            Instruction::AddVxVy(x, y) => self.op_add_vx_vy(x, y),
            Instruction::SubVxVy(x, y) => self.op_sub_vx_vy(x, y),
            Instruction::ShrVx(x) => self.op_shr_vx(x),
            Instruction::SubnVxVy(x, y) => self.op_subn_vx_vy(x, y),
            Instruction::ShlVx(x) => self.op_shl_vx(x),
            Instruction::SneVxVy(x, y) => {
                let cond = self.registers[x as usize] != self.registers[y as usize];
                self.skip_if(cond);
            },
            Instruction::LdI(nnn) => self.i = nnn,
            Instruction::JpV0(nnn) => self.pc = nnn + self.registers[0] as u16,
            Instruction::Rnd(x, kk) => self.op_rnd(x, kk, random),
            Instruction::Drw(x, y, n) => self.op_dxyn(x, y, n, memory, display),
            Instruction::Skp(x) => {
                let cond = keypad.is_key_pressed(self.registers[x as usize]);
                self.skip_if(cond);
            },
            Instruction::Sknp(x) => {
                let cond = !keypad.is_key_pressed(self.registers[x as usize]);
                self.skip_if(cond);
            },
            Instruction::LdVxDt(x) => self.registers[x as usize] = self.delay_timer,
            Instruction::LdVxK(x) => self.op_ld_vx_k(x, keypad),
            Instruction::LdDtVx(x) => self.delay_timer = self.registers[x as usize],
            Instruction::LdStVx(x) => self.sound_timer = self.registers[x as usize],
            Instruction::AddIVx(x) => {
                self.i = self.i.wrapping_add(self.registers[x as usize] as u16)
            },
            Instruction::LdFVx(x) => self.i = memory.font_address(self.registers[x as usize]),
            Instruction::LdBVx(x) => self.op_ld_b_vx(x, memory),
            Instruction::LdIVx(x) => self.op_ld_i_vx(x, memory),
            Instruction::LdVxI(x) => self.op_ld_vx_i(x, memory),
            Instruction::Unknown(_) => {},
        }
    }

    fn op_call(&mut self, addr: u16)
        requires
            old(self).sp < STACK_SIZE,
        ensures
            final(self)@ == (CpuState {
                stack: old(self)@.stack.update(old(self).sp as int, old(self).pc),
                sp: (old(self).sp + 1) as u8,
                pc: addr,
                ..old(self)@
            }),
    {
        self.push(self.pc);
        self.pc = addr;
    }

    fn op_ret(&mut self)
        requires
            1 <= old(self).sp <= STACK_SIZE,
        ensures
            final(self)@ == (CpuState {
                pc: old(self)@.stack[old(self).sp - 1],
                sp: (old(self).sp - 1) as u8,
                ..old(self)@
            }),
    {
        self.pc = self.pop();
    }

    fn op_add_vx_vy(&mut self, x: u8, y: u8)
        requires
            x < 16,
            y < 16,
        ensures
            ({
                let r = old(self)@.registers;
                final(self)@ == old(self)@.with_registers(
                    r.update(FLAG as int, if r[x as int] + r[y as int] > 0xFF { 1u8 } else { 0u8 }).update(
                        x as int,
                        wrap8(r[x as int] + r[y as int]),
                    ),
                )
            }),
    {
        let vx = self.registers[x as usize];
        let vy = self.registers[y as usize];
        let carry = vx as u16 + vy as u16 > 0xFF;
        let result = vx.wrapping_add(vy);
        self.registers[FLAG] = if carry { 1 } else { 0 };
        self.registers[x as usize] = result;
    }

    fn op_sub_vx_vy(&mut self, x: u8, y: u8)
        requires
            x < 16,
            y < 16,
        ensures
            ({
                let r = old(self)@.registers;
                final(self)@ == old(self)@.with_registers(
                    r.update(x as int, wrap8(r[x as int] - r[y as int])).update(
                        FLAG as int,
                        if r[x as int] >= r[y as int] { 1u8 } else { 0u8 },
                    ),
                )
            }),
    {
        let vx = self.registers[x as usize];
        let vy = self.registers[y as usize];
        let borrow = vx < vy;
        self.registers[x as usize] = vx.wrapping_sub(vy);
        self.registers[FLAG] = if borrow { 0 } else { 1 };
    }

    fn op_shr_vx(&mut self, x: u8)
        requires
            x < 16,
        ensures
            ({
                let r = old(self)@.registers;
                final(self)@ == old(self)@.with_registers(
                    r.update(FLAG as int, r[x as int] % 2).update(x as int, r[x as int] / 2),
                )
            }),
    {
        let vx = self.registers[x as usize];
        assert(vx & 0x1 == vx % 2 && vx >> 1 == vx / 2) by (bit_vector);
        self.registers[FLAG] = vx & 0x1;
        self.registers[x as usize] = vx >> 1;
    }

    fn op_subn_vx_vy(&mut self, x: u8, y: u8)
        requires
            x < 16,
            y < 16,
        ensures
            ({
                let r = old(self)@.registers;
                final(self)@ == old(self)@.with_registers(
                    r.update(x as int, wrap8(r[y as int] - r[x as int])).update(
                        FLAG as int,
                        if r[y as int] >= r[x as int] { 1u8 } else { 0u8 },
                    ),
                )
            }),
    {
        let vx = self.registers[x as usize];
        let vy = self.registers[y as usize];
        let borrow = vy < vx;
        self.registers[x as usize] = vy.wrapping_sub(vx);
        self.registers[FLAG] = if borrow { 0 } else { 1 };
    }

    fn op_shl_vx(&mut self, x: u8)
        requires
            x < 16,
        ensures
            ({
                let r = old(self)@.registers;
                final(self)@ == old(self)@.with_registers(
                    r.update(FLAG as int, r[x as int] / 128).update(x as int, wrap8(r[x as int] * 2)),
                )
            }),
    {
        let vx = self.registers[x as usize];
        assert((vx & 0x80) >> 7 == vx / 128 && vx << 1 == (vx * 2) % 256) by (bit_vector);
        self.registers[FLAG] = (vx & 0x80) >> 7;
        self.registers[x as usize] = vx << 1;
    }

    fn op_rnd(&mut self, x: u8, kk: u8, random: u8)
        requires
            x < 16,
        ensures
            final(self)@ == old(self)@.with_registers(
                old(self)@.registers.update(x as int, random & kk),
            ),
    {
        self.registers[x as usize] = random & kk;
    }

    fn op_dxyn(&mut self, x: u8, y: u8, n: u8, memory: &Memory, display: &mut Display)
        requires
            x < 16,
            y < 16,
            old(self).i + n <= MEMORY_SIZE,
        ensures
            ({
                let r = old(self)@.registers;
                let drawn = draw_spec(
                    old(display)@.pixels,
                    r[x as int] as int,
                    r[y as int] as int,
                    memory@.subrange(old(self).i as int, old(self).i + n),
                );
                &&& final(self)@ == old(self)@.with_registers(
                    r.update(FLAG as int, if drawn.1 { 1u8 } else { 0u8 }),
                )
                &&& final(display)@ == (DisplayState { pixels: drawn.0, dirty: true })
            }),
    {
        let vx = self.registers[x as usize] as usize;
        let vy = self.registers[y as usize] as usize;
        proof {
            memory.lemma_len();
        }
        let sprite = memory.read_slice(self.i, n);
        let collision = display.draw_sprite(vx, vy, sprite);
        self.registers[FLAG] = if collision { 1 } else { 0 };
    }

    fn op_ld_vx_k(&mut self, x: u8, keypad: &Keypad)
        requires
            x < 16 || first_pressed(keypad.keys@) is None,
        ensures
            final(self)@ == match first_pressed(keypad.keys@) {
                Some(key) => old(self)@.with_registers(old(self)@.registers.update(x as int, key)),
                None => old(self)@.with_pc(wrap16(old(self).pc - 2)),
            },
    {
        if let Some(key) = keypad.first_pressed_key() {
            self.registers[x as usize] = key;
        } else {
            self.pc = self.pc.wrapping_sub(2);
        }
    }

    fn op_ld_b_vx(&mut self, x: u8, memory: &mut Memory)
        requires
            x < 16,
            old(self).i + 2 < MEMORY_SIZE,
        ensures
            ({
                let v = old(self)@.registers[x as int];
                let i = old(self).i as int;
                final(memory)@ == old(memory)@.update(i, v / 100).update(i + 1, (v / 10) % 10).update(
                    i + 2,
                    v % 10,
                )
            }),
            final(self)@ == old(self)@,
    {
        let value = self.registers[x as usize];
        memory.write_bcd(self.i, value);
    }

    fn op_ld_i_vx(&mut self, x: u8, memory: &mut Memory)
        requires
            x < 16,
            old(self).i + x + 1 <= MEMORY_SIZE,
        ensures
            final(memory)@ == write_seq(
                old(memory)@,
                old(self).i as int,
                old(self)@.registers.subrange(0, x + 1),
            ),
            final(self)@ == old(self)@,
    {
        let count = x as usize + 1;
        memory.write_registers(self.i, &self.registers[0..count]);
    }

    fn op_ld_vx_i(&mut self, x: u8, memory: &Memory)
        requires
            x < 16,
            old(self).i + x + 1 <= MEMORY_SIZE,
        ensures
            final(self)@ == old(self)@.with_registers(
                write_seq(
                    old(self)@.registers,
                    0,
                    memory@.subrange(old(self).i as int, old(self).i + x + 1),
                ),
            ),
    {
        let count = x as usize + 1;
        proof {
            memory.lemma_len();
        }
        let bytes = memory.read_registers(self.i, count);
        let mut k: usize = 0;
        while k < count
            invariant
                count == x + 1,
                x < 16,
                bytes@.len() == count,
                k <= count,
                self@ == old(self)@.with_registers(write_seq(old(self)@.registers, 0, bytes@.take(k as int))),
            decreases count - k,
        {
            self.registers[k] = bytes[k];
            k = k + 1;
            assert(self.registers@ =~= write_seq(old(self)@.registers, 0, bytes@.take(k as int)));
        }
        assert(bytes@.take(k as int) =~= bytes@);
    }
}

} // verus!
