use vstd::prelude::*;

use crate::cpu::{can_step, initial_cpu, machine, next_instruction, step, Cpu, MachineState};
use crate::display::{blank_pixels, Display, DisplayState};
use crate::keypad::Keypad;
use crate::memory::{initial_ram, write_seq, Memory, MEMORY_SIZE, PROGRAM_START};
use crate::opcode::Instruction;

verus! {

/// The state of a machine that has just been created.
pub open spec fn initial_machine() -> MachineState {
    MachineState {
        cpu: initial_cpu(),
        ram: initial_ram(),
        display: DisplayState { pixels: blank_pixels(), dirty: true },
        keys: Seq::new(16, |k: int| false),
    }
}

/// A complete CHIP-8 machine, as a frontend drives it.
pub struct Chip8 {
    cpu: Cpu,
    memory: Memory,
    display: Display,
    keypad: Keypad,
}

impl View for Chip8 {
    type V = MachineState;

    closed spec fn view(&self) -> MachineState {
        machine(self.cpu, self.memory, self.display, self.keypad)
    }
}

impl Chip8 {
    /// Every machine's parts have the sizes of the hardware.
    pub proof fn lemma_wf(&self)
        ensures
            self@.wf(),
    {
        self.memory.lemma_len();
        self.display.lemma_len();
    }

    /// A machine in its power-on state: font loaded, screen blank, no key
    /// held, execution about to start at `PROGRAM_START`.
    pub fn new() -> (chip8: Self)
        ensures
            chip8@ == initial_machine(),
    {
        let chip8 = Chip8 {
            cpu: Cpu::new(),
            memory: Memory::new(),
            display: Display::new(),
            keypad: Keypad::new(),
        };
        assert(chip8.keypad.keys@ =~= Seq::new(16, |k: int| false));
        chip8
    }

    /// Copies `rom` into RAM at `PROGRAM_START`.
    pub fn load_rom(&mut self, rom: &[u8])
        requires
            PROGRAM_START + rom@.len() <= MEMORY_SIZE,
        ensures
            final(self)@ == (MachineState {
                ram: write_seq(old(self)@.ram, PROGRAM_START as int, rom@),
                ..old(self)@
            }),
    {
        self.memory.load_rom(rom);
    }

    /// Whether the next `tick` runs without fault.
    pub fn can_tick(&self) -> (ok: bool)
        ensures
            ok == can_step(self@.cpu, self@.ram, self@.keys),
    {
        self.cpu.can_tick(&self.memory, &self.keypad)
    }

    /// The instruction at the program counter, which the next `tick` runs;
    /// a frontend can report an `Unknown` opcode with it.
    pub fn current_instruction(&self) -> (ins: Instruction)
        requires
            self@.cpu.pc + 1 < MEMORY_SIZE,
        ensures
            ins == next_instruction(self@.cpu, self@.ram),
    {
        Instruction::decode(self.memory.read_word(self.cpu.pc))
    }

    /// The address of the instruction that the next `tick` runs.
    pub fn program_counter(&self) -> (pc: u16)
        ensures
            pc == self@.cpu.pc,
    {
        self.cpu.pc
    }

    /// Runs one fetch-decode-execute cycle. `Rnd` draws its byte from
    /// `rand`; every other instruction behaves as `step` says with any
    /// random byte.
    pub fn tick(&mut self)
        requires
            can_step(old(self)@.cpu, old(self)@.ram, old(self)@.keys),
        ensures
            exists|random: u8| final(self)@ == #[trigger] step(old(self)@, random),
            !(next_instruction(old(self)@.cpu, old(self)@.ram) is Rnd) ==> final(self)@ == step(
                old(self)@,
                0,
            ),
    {
        self.cpu.tick(&mut self.memory, &mut self.display, &self.keypad);
    }

    /// Counts the delay and sound timers down by one, stopping at zero.
    pub fn tick_timers(&mut self)
        ensures
            final(self)@.cpu.delay_timer == if old(self)@.cpu.delay_timer > 0 {
                (old(self)@.cpu.delay_timer - 1) as u8
            } else {
                0
            },
            final(self)@.cpu.sound_timer == if old(self)@.cpu.sound_timer > 0 {
                (old(self)@.cpu.sound_timer - 1) as u8
            } else {
                0
            },
            final(self)@.cpu.registers == old(self)@.cpu.registers,
            final(self)@.cpu.i == old(self)@.cpu.i,
            final(self)@.cpu.pc == old(self)@.cpu.pc,
            final(self)@.cpu.stack == old(self)@.cpu.stack,
            final(self)@.cpu.sp == old(self)@.cpu.sp,
            final(self)@.ram == old(self)@.ram,
            final(self)@.display == old(self)@.display,
            final(self)@.keys == old(self)@.keys,
    {
        self.cpu.tick_timers();
    }

    /// Whether the buzzer should sound.
    pub fn is_sound_playing(&self) -> (playing: bool)
        ensures
            playing == (self@.cpu.sound_timer > 0),
    {
        self.cpu.is_sound_playing()
    }

    /// The screen's pixels in row-major order.
    pub fn get_display_buffer(&self) -> (buffer: &[bool])
        ensures
            buffer@ == self@.display.pixels,
    {
        self.display.get_buffer()
    }

    /// Whether the screen may have changed since it was last drawn.
    pub fn is_display_dirty(&self) -> (dirty: bool)
        ensures
            dirty == self@.display.dirty,
    {
        self.display.is_dirty()
    }

    /// Records that the frontend has drawn the current screen.
    pub fn clear_display_dirty(&mut self)
        ensures
            final(self)@ == (MachineState {
                display: DisplayState { pixels: old(self)@.display.pixels, dirty: false },
                ..old(self)@
            }),
    {
        self.display.clear_dirty();
    }

    /// Records that key `key` is held down.
    pub fn key_down(&mut self, key: u8)
        requires
            key < 16,
        ensures
            final(self)@ == (MachineState {
                keys: old(self)@.keys.update(key as int, true),
                ..old(self)@
            }),
    {
        self.keypad.set_pressed(key, true);
    }

    /// Records that key `key` has been released.
    pub fn key_up(&mut self, key: u8)
        requires
            key < 16,
        ensures
            final(self)@ == (MachineState {
                keys: old(self)@.keys.update(key as int, false),
                ..old(self)@
            }),
    {
        self.keypad.set_pressed(key, false);
    }

    /// Returns the CPU to its power-on state; RAM, screen and keypad are
    /// left as they are.
    pub fn reset(&mut self)
        ensures
            final(self)@ == (MachineState { cpu: initial_cpu(), ..old(self)@ }),
    {
        self.cpu.reset();
    }
}

} // verus!
