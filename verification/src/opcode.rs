use vstd::prelude::*;

verus! {

/// A decoded CHIP-8 instruction. `x` and `y` name registers `Vx` and `Vy`,
/// `kk` is an immediate byte, `nnn` a 12-bit address and `n` a nibble.
#[derive(Debug, Clone, Copy, PartialEq, Eq, Structural)]
pub enum Instruction {
    /// 00E0: clear the display.
    Cls,
    /// 00EE: return from a subroutine.
    Ret,
    /// 1NNN: jump to NNN.
    Jp(u16),
    /// 2NNN: call the subroutine at NNN.
    Call(u16),
    /// 3XKK: skip the next instruction if Vx == KK.
    SeVxByte(u8, u8),
    /// 4XKK: skip the next instruction if Vx != KK.
    SneVxByte(u8, u8),
    /// 5XY0: skip the next instruction if Vx == Vy.
    SeVxVy(u8, u8),
    /// 6XKK: Vx = KK.
    LdVxByte(u8, u8),
    /// 7XKK: Vx += KK, wrapping, VF untouched.
    AddVxByte(u8, u8),
    /// 8XY0: Vx = Vy.
    LdVxVy(u8, u8),
    /// 8XY1: Vx |= Vy.
    OrVxVy(u8, u8),
    /// 8XY2: Vx &= Vy.
    AndVxVy(u8, u8),
    /// 8XY3: Vx ^= Vy.
    XorVxVy(u8, u8),
    /// 8XY4: Vx += Vy, VF = carry.
    AddVxVy(u8, u8),
    /// 8XY5: Vx -= Vy, VF = not borrow.
    SubVxVy(u8, u8),
    /// 8XY6: Vx >>= 1, VF = the bit shifted out.
    ShrVx(u8),
    /// 8XY7: Vx = Vy - Vx, VF = not borrow.
    SubnVxVy(u8, u8),
    /// 8XYE: Vx <<= 1, VF = the bit shifted out.
    ShlVx(u8),
    /// 9XY0: skip the next instruction if Vx != Vy.
    SneVxVy(u8, u8),
    /// ANNN: I = NNN.
    LdI(u16),
    /// BNNN: jump to NNN + V0.
    JpV0(u16),
    /// CXKK: Vx = random byte & KK.
    Rnd(u8, u8),
    /// DXYN: draw the N-byte sprite at I at (Vx, Vy), VF = collision.
    Drw(u8, u8, u8),
    /// EX9E: skip the next instruction if key Vx is held.
    Skp(u8),
    /// EXA1: skip the next instruction if key Vx is not held.
    Sknp(u8),
    /// FX07: Vx = delay timer.
    LdVxDt(u8),
    /// FX0A: wait for a key press and store the key in Vx.
    LdVxK(u8),
    /// FX15: delay timer = Vx.
    LdDtVx(u8),
    /// FX18: sound timer = Vx.
    LdStVx(u8),
    /// FX1E: I += Vx, wrapping.
    AddIVx(u8),
    /// FX29: I = address of the font glyph for digit Vx.
    LdFVx(u8),
    /// FX33: store the decimal digits of Vx at I, I+1, I+2.
    LdBVx(u8),
    /// FX55: store V0..=Vx at I.
    LdIVx(u8),
    /// FX65: load V0..=Vx from I.
    LdVxI(u8),
    /// Any opcode outside the instruction set, kept whole.
    Unknown(u16),
}

/// The instruction that the 16-bit opcode `op` encodes. Writing the opcode
/// as four hexadecimal digits `a x y n`, `kk` is its low byte and `nnn` its
/// low twelve bits.
pub open spec fn decode_spec(op: u16) -> Instruction {
    let a = op / 0x1000;
    let x = ((op / 0x100) % 0x10) as u8;
    let y = ((op / 0x10) % 0x10) as u8;
    let n = (op % 0x10) as u8;
    let kk = (op % 0x100) as u8;
    let nnn = (op % 0x1000) as u16;
    if op == 0x00E0 {
        Instruction::Cls
    } else if op == 0x00EE {
        Instruction::Ret
    } else if a == 0x1 {
        Instruction::Jp(nnn)
    } else if a == 0x2 {
        Instruction::Call(nnn)
    } else if a == 0x3 {
        Instruction::SeVxByte(x, kk)
    } else if a == 0x4 {
        Instruction::SneVxByte(x, kk)
    } else if a == 0x5 && n == 0x0 {
        Instruction::SeVxVy(x, y)
    } else if a == 0x6 {
        Instruction::LdVxByte(x, kk)
    } else if a == 0x7 {
        Instruction::AddVxByte(x, kk)
    } else if a == 0x8 && n == 0x0 {
        Instruction::LdVxVy(x, y)
    } else if a == 0x8 && n == 0x1 {
        Instruction::OrVxVy(x, y)
    } else if a == 0x8 && n == 0x2 {
        Instruction::AndVxVy(x, y)
    } else if a == 0x8 && n == 0x3 {
        Instruction::XorVxVy(x, y)
    } else if a == 0x8 && n == 0x4 {
        Instruction::AddVxVy(x, y)
    } else if a == 0x8 && n == 0x5 {
        Instruction::SubVxVy(x, y)
    } else if a == 0x8 && n == 0x6 {
        Instruction::ShrVx(x)
    } else if a == 0x8 && n == 0x7 {
        Instruction::SubnVxVy(x, y)
    } else if a == 0x8 && n == 0xE {
        Instruction::ShlVx(x)
    } else if a == 0x9 && n == 0x0 {
        Instruction::SneVxVy(x, y)
    } else if a == 0xA {
        Instruction::LdI(nnn)
    } else if a == 0xB {
        Instruction::JpV0(nnn)
    } else if a == 0xC {
        Instruction::Rnd(x, kk)
    } else if a == 0xD {
        Instruction::Drw(x, y, n)
    } else if a == 0xE && kk == 0x9E {
        Instruction::Skp(x)
    } else if a == 0xE && kk == 0xA1 {
        Instruction::Sknp(x)
    } else if a == 0xF && kk == 0x07 {
        Instruction::LdVxDt(x)
    } else if a == 0xF && kk == 0x0A {
        Instruction::LdVxK(x)
    } else if a == 0xF && kk == 0x15 {
        Instruction::LdDtVx(x)
    } else if a == 0xF && kk == 0x18 {
        Instruction::LdStVx(x)
    } else if a == 0xF && kk == 0x1E {
        Instruction::AddIVx(x)
    } else if a == 0xF && kk == 0x29 {
        Instruction::LdFVx(x)
    } else if a == 0xF && kk == 0x33 {
        Instruction::LdBVx(x)
    } else if a == 0xF && kk == 0x55 {
        Instruction::LdIVx(x)
    } else if a == 0xF && kk == 0x65 {
        Instruction::LdVxI(x)
    } else {
        Instruction::Unknown(op)
    }
}

/// The canonical opcode of an instruction: the fixed hexadecimal digits of
/// its pattern with X, Y, N, KK and NNN filled in (unused digits zero).
pub open spec fn encode(ins: Instruction) -> int {
    match ins {
        Instruction::Cls => 0x00E0,
        Instruction::Ret => 0x00EE,
        Instruction::Jp(nnn) => 0x1000 + nnn,
        Instruction::Call(nnn) => 0x2000 + nnn,
        Instruction::SeVxByte(x, kk) => 0x3000 + 0x100 * x + kk,
        Instruction::SneVxByte(x, kk) => 0x4000 + 0x100 * x + kk,
        Instruction::SeVxVy(x, y) => 0x5000 + 0x100 * x + 0x10 * y,
        Instruction::LdVxByte(x, kk) => 0x6000 + 0x100 * x + kk,
        Instruction::AddVxByte(x, kk) => 0x7000 + 0x100 * x + kk,
        Instruction::LdVxVy(x, y) => 0x8000 + 0x100 * x + 0x10 * y,
        Instruction::OrVxVy(x, y) => 0x8001 + 0x100 * x + 0x10 * y,
        Instruction::AndVxVy(x, y) => 0x8002 + 0x100 * x + 0x10 * y,
        Instruction::XorVxVy(x, y) => 0x8003 + 0x100 * x + 0x10 * y,
        Instruction::AddVxVy(x, y) => 0x8004 + 0x100 * x + 0x10 * y,
        Instruction::SubVxVy(x, y) => 0x8005 + 0x100 * x + 0x10 * y,
        Instruction::ShrVx(x) => 0x8006 + 0x100 * x,
        Instruction::SubnVxVy(x, y) => 0x8007 + 0x100 * x + 0x10 * y,
        Instruction::ShlVx(x) => 0x800E + 0x100 * x,
        Instruction::SneVxVy(x, y) => 0x9000 + 0x100 * x + 0x10 * y,
        Instruction::LdI(nnn) => 0xA000 + nnn,
        Instruction::JpV0(nnn) => 0xB000 + nnn,
        Instruction::Rnd(x, kk) => 0xC000 + 0x100 * x + kk,
        Instruction::Drw(x, y, n) => 0xD000 + 0x100 * x + 0x10 * y + n,
        Instruction::Skp(x) => 0xE09E + 0x100 * x,
        Instruction::Sknp(x) => 0xE0A1 + 0x100 * x,
        Instruction::LdVxDt(x) => 0xF007 + 0x100 * x,
        Instruction::LdVxK(x) => 0xF00A + 0x100 * x,
        Instruction::LdDtVx(x) => 0xF015 + 0x100 * x,
        Instruction::LdStVx(x) => 0xF018 + 0x100 * x,
        Instruction::AddIVx(x) => 0xF01E + 0x100 * x,
        Instruction::LdFVx(x) => 0xF029 + 0x100 * x,
        Instruction::LdBVx(x) => 0xF033 + 0x100 * x,
        Instruction::LdIVx(x) => 0xF055 + 0x100 * x,
        Instruction::LdVxI(x) => 0xF065 + 0x100 * x,
        Instruction::Unknown(op) => op as int,
    }
}

/// Decoding inverts encoding: every instruction with its operands in range
/// is what its canonical opcode decodes to, and an opcode that decodes to
/// `Unknown` is kept whole.
#[verifier::rlimit(100)]
#[verifier::spinoff_prover]
pub proof fn lemma_decode_encode(ins: Instruction)
    requires
        ins.operands_in_range(),
        !(ins is Unknown),
    ensures
        0 <= encode(ins) <= 0xFFFF,
        decode_spec(encode(ins) as u16) == ins,
{
    match ins {
        Instruction::Cls | Instruction::Ret => {},
        Instruction::Jp(nnn) | Instruction::Call(nnn) | Instruction::LdI(nnn)
        | Instruction::JpV0(nnn) => {
            lemma_digits(encode(ins) / 0x1000, nnn as int / 0x100, (nnn as int / 0x10) % 0x10, nnn as int % 0x10);
        },
        Instruction::SeVxByte(x, kk) | Instruction::SneVxByte(x, kk) | Instruction::LdVxByte(x, kk)
        | Instruction::AddVxByte(x, kk) | Instruction::Rnd(x, kk) => {
            lemma_digits(encode(ins) / 0x1000, x as int, kk as int / 0x10, kk as int % 0x10);
        },
        Instruction::SeVxVy(x, y) | Instruction::LdVxVy(x, y) | Instruction::OrVxVy(x, y)
        | Instruction::AndVxVy(x, y) | Instruction::XorVxVy(x, y) | Instruction::AddVxVy(x, y)
        | Instruction::SubVxVy(x, y) | Instruction::SubnVxVy(x, y) | Instruction::SneVxVy(x, y) => {
            lemma_digits(encode(ins) / 0x1000, x as int, y as int, encode(ins) % 0x10);
        },
        Instruction::Drw(x, y, n) => {
            lemma_digits(0xD, x as int, y as int, n as int);
        },
        Instruction::ShrVx(x) | Instruction::ShlVx(x) | Instruction::Skp(x)
        | Instruction::Sknp(x) | Instruction::LdVxDt(x) | Instruction::LdVxK(x)
        | Instruction::LdDtVx(x) | Instruction::LdStVx(x) | Instruction::AddIVx(x)
        | Instruction::LdFVx(x) | Instruction::LdBVx(x) | Instruction::LdIVx(x)
        | Instruction::LdVxI(x) => {
            let low = encode(ins) % 0x100;
            lemma_digits(encode(ins) / 0x1000, x as int, low / 0x10, low % 0x10);
        },
        Instruction::Unknown(_) => {},
    }
}

/// The hexadecimal digits of `0x1000 * a + 0x100 * x + 0x10 * y + n`.
proof fn lemma_digits(a: int, x: int, y: int, n: int)
    requires
        0 <= a < 16,
        0 <= x < 16,
        0 <= y < 16,
        0 <= n < 16,
    ensures
        ({
            let op = 0x1000 * a + 0x100 * x + 0x10 * y + n;
            &&& op / 0x1000 == a
            &&& (op / 0x100) % 0x10 == x
            &&& (op / 0x10) % 0x10 == y
            &&& op % 0x10 == n
            &&& op % 0x100 == 0x10 * y + n
            &&& op % 0x1000 == 0x100 * x + 0x10 * y + n
        }),
{
}

/// An opcode outside the instruction set decodes to `Unknown` of itself.
pub proof fn lemma_unknown_keeps_opcode(op: u16)
    ensures
        decode_spec(op) matches Instruction::Unknown(o) ==> o == op,
{
}

/// Every opcode decodes to an instruction whose operands are in range.
pub proof fn lemma_decode_in_range(op: u16)
    ensures
        decode_spec(op).operands_in_range(),
{
}

impl Instruction {
    /// Register operands are register numbers (below 16), `n` operands are
    /// nibbles and address operands fit in twelve bits: what every decoded
    /// instruction satisfies.
    pub open spec fn operands_in_range(self) -> bool {
        match self {
            Instruction::Jp(nnn) | Instruction::Call(nnn) | Instruction::LdI(nnn)
            | Instruction::JpV0(nnn) => nnn < 0x1000,
            Instruction::SeVxByte(x, _) | Instruction::SneVxByte(x, _)
            | Instruction::LdVxByte(x, _) | Instruction::AddVxByte(x, _)
            | Instruction::Rnd(x, _) => x < 16,
            Instruction::SeVxVy(x, y) | Instruction::LdVxVy(x, y) | Instruction::OrVxVy(x, y)
            | Instruction::AndVxVy(x, y) | Instruction::XorVxVy(x, y)
            | Instruction::AddVxVy(x, y) | Instruction::SubVxVy(x, y)
            | Instruction::SubnVxVy(x, y) | Instruction::SneVxVy(x, y) => x < 16 && y < 16,
            Instruction::Drw(x, y, n) => x < 16 && y < 16 && n < 16,
            Instruction::ShrVx(x) | Instruction::ShlVx(x) | Instruction::Skp(x)
            | Instruction::Sknp(x) | Instruction::LdVxDt(x) | Instruction::LdVxK(x)
            | Instruction::LdDtVx(x) | Instruction::LdStVx(x) | Instruction::AddIVx(x)
            | Instruction::LdFVx(x) | Instruction::LdBVx(x) | Instruction::LdIVx(x)
            | Instruction::LdVxI(x) => x < 16,
            Instruction::Cls | Instruction::Ret | Instruction::Unknown(_) => true,
        }
    }

    /// Decodes the opcode `opcode`.
    pub fn decode(opcode: u16) -> (ins: Self)
        ensures
            ins == decode_spec(opcode),
            ins.operands_in_range(),
    {
        let nibbles = (
            (opcode & 0xF000) >> 12,
            (opcode & 0x0F00) >> 8,
            (opcode & 0x00F0) >> 4,
            opcode & 0x000F,
        );
        assert((opcode & 0xF000) >> 12 == opcode / 0x1000 && (opcode & 0x0F00) >> 8 == (opcode
            / 0x100) % 0x10 && (opcode & 0x00F0) >> 4 == (opcode / 0x10) % 0x10 && opcode & 0x000F
            == opcode % 0x10) by (bit_vector);
        assert(opcode & 0x00FF == opcode % 0x100 && opcode & 0x0FFF == opcode % 0x1000)
            by (bit_vector);
        let x = nibbles.1 as u8;
        let y = nibbles.2 as u8;
        let n = nibbles.3 as u8;
        let nn = (opcode & 0x00FF) as u8;
        let nnn = opcode & 0x0FFF;

        match nibbles {
            (0x0, 0x0, 0xE, 0x0) => Instruction::Cls,
            (0x0, 0x0, 0xE, 0xE) => Instruction::Ret,
            (0x1, _, _, _) => Instruction::Jp(nnn),
            (0x2, _, _, _) => Instruction::Call(nnn),
            (0x3, _, _, _) => Instruction::SeVxByte(x, nn),
            (0x4, _, _, _) => Instruction::SneVxByte(x, nn),
            (0x5, _, _, 0x0) => Instruction::SeVxVy(x, y),
            (0x6, _, _, _) => Instruction::LdVxByte(x, nn),
            (0x7, _, _, _) => Instruction::AddVxByte(x, nn),
            (0x8, _, _, 0x0) => Instruction::LdVxVy(x, y),
            (0x8, _, _, 0x1) => Instruction::OrVxVy(x, y),
            (0x8, _, _, 0x2) => Instruction::AndVxVy(x, y),
            (0x8, _, _, 0x3) => Instruction::XorVxVy(x, y),
            (0x8, _, _, 0x4) => Instruction::AddVxVy(x, y),
            (0x8, _, _, 0x5) => Instruction::SubVxVy(x, y),
            (0x8, _, _, 0x6) => Instruction::ShrVx(x),
            (0x8, _, _, 0x7) => Instruction::SubnVxVy(x, y),
            (0x8, _, _, 0xE) => Instruction::ShlVx(x),
            (0x9, _, _, 0x0) => Instruction::SneVxVy(x, y),
            (0xA, _, _, _) => Instruction::LdI(nnn),
            (0xB, _, _, _) => Instruction::JpV0(nnn),
            (0xC, _, _, _) => Instruction::Rnd(x, nn),
            (0xD, _, _, _) => Instruction::Drw(x, y, n),
            (0xE, _, 0x9, 0xE) => Instruction::Skp(x),
            (0xE, _, 0xA, 0x1) => Instruction::Sknp(x),
            (0xF, _, 0x0, 0x7) => Instruction::LdVxDt(x),
            (0xF, _, 0x0, 0xA) => Instruction::LdVxK(x),
            (0xF, _, 0x1, 0x5) => Instruction::LdDtVx(x),
            (0xF, _, 0x1, 0x8) => Instruction::LdStVx(x),
            (0xF, _, 0x1, 0xE) => Instruction::AddIVx(x),
            (0xF, _, 0x2, 0x9) => Instruction::LdFVx(x),
            (0xF, _, 0x3, 0x3) => Instruction::LdBVx(x),
            (0xF, _, 0x5, 0x5) => Instruction::LdIVx(x),
            (0xF, _, 0x6, 0x5) => Instruction::LdVxI(x),
            _ => Instruction::Unknown(opcode),
        }
    }
}

} // verus!
