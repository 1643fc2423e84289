use vstd::prelude::*;

verus! {

/// Bytes of addressable RAM.
pub const MEMORY_SIZE: usize = 4096;

/// Address at which ROMs are loaded and execution starts.
pub const PROGRAM_START: u16 = 0x200;

/// Address of the built-in hexadecimal font (the area below `PROGRAM_START`
/// belongs to the interpreter).
pub const FONT_START: u16 = 0x050;

/// Bytes of the built-in font: sixteen glyphs of five rows each.
pub const FONT_SIZE: usize = 80;

/// The built-in font: glyph `d` occupies bytes `5 * d .. 5 * d + 5`, one byte
/// per row, the leftmost pixel in the most significant bit.
pub open spec fn font_glyphs() -> Seq<u8> {
    seq![
        0xF0u8, 0x90, 0x90, 0x90, 0xF0, // 0
        0x20, 0x60, 0x20, 0x20, 0x70, // 1
        0xF0, 0x10, 0xF0, 0x80, 0xF0, // 2
        0xF0, 0x10, 0xF0, 0x10, 0xF0, // 3
        0x90, 0x90, 0xF0, 0x10, 0x10, // 4
        0xF0, 0x80, 0xF0, 0x10, 0xF0, // 5
        0xF0, 0x80, 0xF0, 0x90, 0xF0, // 6
        0xF0, 0x10, 0x20, 0x40, 0x40, // 7
        0xF0, 0x90, 0xF0, 0x90, 0xF0, // 8
        0xF0, 0x90, 0xF0, 0x10, 0xF0, // 9
        0xF0, 0x90, 0xF0, 0x90, 0x90, // A
        0xE0, 0x90, 0xE0, 0x90, 0xE0, // B
        0xF0, 0x80, 0x80, 0x80, 0xF0, // C
        0xE0, 0x90, 0x90, 0x90, 0xE0, // D
        0xF0, 0x80, 0xF0, 0x80, 0xF0, // E
        0xF0, 0x80, 0xF0, 0x80, 0x80, // F
    ]
}

/// `s` with the elements at `start .. start + data.len()` replaced by `data`.
pub open spec fn write_seq<T>(s: Seq<T>, start: int, data: Seq<T>) -> Seq<T> {
    Seq::new(
        s.len(),
        |i: int|
            if start <= i < start + data.len() {
                data[i - start]
            } else {
                s[i]
            },
    )
}

/// The RAM of a freshly created machine: zero everywhere but for the font,
/// which sits at `FONT_START`.
pub open spec fn initial_ram() -> Seq<u8> {
    write_seq(Seq::new(MEMORY_SIZE as nat, |i: int| 0u8), FONT_START as int, font_glyphs())
}

/// Writing `data` at `start` and reading the same range back gives `data`;
/// everything outside the range is untouched.
pub proof fn lemma_write_then_read<T>(s: Seq<T>, start: int, data: Seq<T>)
    requires
        0 <= start,
        start + data.len() <= s.len(),
    ensures
        write_seq(s, start, data).len() == s.len(),
        write_seq(s, start, data).subrange(start, start + data.len()) == data,
        forall|k: int|
            0 <= k < s.len() && !(start <= k < start + data.len()) ==> #[trigger] write_seq(
                s,
                start,
                data,
            )[k] == s[k],
{
    assert(write_seq(s, start, data).subrange(start, start + data.len()) =~= data);
}

/// The three digits that `write_bcd` stores are decimal digits, and read as
/// hundreds, tens and ones they give back the value.
pub proof fn lemma_bcd_digits(value: u8)
    ensures
        value / 100 < 10,
        (value / 10) % 10 < 10,
        value % 10 < 10,
        (value / 100) * 100 + ((value / 10) % 10) * 10 + value % 10 == value,
{
}

/// The five rows of the glyph for digit `d` in `ram`.
pub open spec fn glyph_at(ram: Seq<u8>, d: int) -> Seq<u8> {
    ram.subrange(FONT_START + 5 * d, FONT_START + 5 * d + 5)
}

/// The hexadecimal digit that the five sprite rows `g` show in the standard
/// CHIP-8 font, if any.
pub open spec fn digit_shown(g: Seq<u8>) -> Option<int> {
    if g[0] == 0xF0 && g[1] == 0x90 && g[2] == 0x90 && g[3] == 0x90 && g[4] == 0xF0 {
        Some(0int)
    } else if g[0] == 0x20 && g[1] == 0x60 && g[2] == 0x20 && g[3] == 0x20 && g[4] == 0x70 {
        Some(1int)
    } else if g[0] == 0xF0 && g[1] == 0x10 && g[2] == 0xF0 && g[3] == 0x80 && g[4] == 0xF0 {
        Some(2int)
    } else if g[0] == 0xF0 && g[1] == 0x10 && g[2] == 0xF0 && g[3] == 0x10 && g[4] == 0xF0 {
        Some(3int)
    } else if g[0] == 0x90 && g[1] == 0x90 && g[2] == 0xF0 && g[3] == 0x10 && g[4] == 0x10 {
        Some(4int)
    } else if g[0] == 0xF0 && g[1] == 0x80 && g[2] == 0xF0 && g[3] == 0x10 && g[4] == 0xF0 {
        Some(5int)
    } else if g[0] == 0xF0 && g[1] == 0x80 && g[2] == 0xF0 && g[3] == 0x90 && g[4] == 0xF0 {
        Some(6int)
    } else if g[0] == 0xF0 && g[1] == 0x10 && g[2] == 0x20 && g[3] == 0x40 && g[4] == 0x40 {
        Some(7int)
    } else if g[0] == 0xF0 && g[1] == 0x90 && g[2] == 0xF0 && g[3] == 0x90 && g[4] == 0xF0 {
        Some(8int)
    } else if g[0] == 0xF0 && g[1] == 0x90 && g[2] == 0xF0 && g[3] == 0x10 && g[4] == 0xF0 {
        Some(9int)
    } else if g[0] == 0xF0 && g[1] == 0x90 && g[2] == 0xF0 && g[3] == 0x90 && g[4] == 0x90 {
        Some(10int)
    } else if g[0] == 0xE0 && g[1] == 0x90 && g[2] == 0xE0 && g[3] == 0x90 && g[4] == 0xE0 {
        Some(11int)
    } else if g[0] == 0xF0 && g[1] == 0x80 && g[2] == 0x80 && g[3] == 0x80 && g[4] == 0xF0 {
        Some(12int)
    } else if g[0] == 0xE0 && g[1] == 0x90 && g[2] == 0x90 && g[3] == 0x90 && g[4] == 0xE0 {
        Some(13int)
    } else if g[0] == 0xF0 && g[1] == 0x80 && g[2] == 0xF0 && g[3] == 0x80 && g[4] == 0xF0 {
        Some(14int)
    } else if g[0] == 0xF0 && g[1] == 0x80 && g[2] == 0xF0 && g[3] == 0x80 && g[4] == 0x80 {
        Some(15int)
    } else {
        None
    }
}

/// A new memory holds, at `FONT_START + 5 * d`, the standard five-row glyph
/// of each hexadecimal digit `d`; the glyphs are pairwise distinct, and each
/// shows its own digit.
pub proof fn lemma_font_glyphs()
    ensures
        glyph_at(initial_ram(), 0) == seq![0xF0u8, 0x90, 0x90, 0x90, 0xF0], // 0
        glyph_at(initial_ram(), 1) == seq![0x20u8, 0x60, 0x20, 0x20, 0x70], // 1
        glyph_at(initial_ram(), 2) == seq![0xF0u8, 0x10, 0xF0, 0x80, 0xF0], // 2
        glyph_at(initial_ram(), 3) == seq![0xF0u8, 0x10, 0xF0, 0x10, 0xF0], // 3
        glyph_at(initial_ram(), 4) == seq![0x90u8, 0x90, 0xF0, 0x10, 0x10], // 4
        glyph_at(initial_ram(), 5) == seq![0xF0u8, 0x80, 0xF0, 0x10, 0xF0], // 5
        glyph_at(initial_ram(), 6) == seq![0xF0u8, 0x80, 0xF0, 0x90, 0xF0], // 6
        glyph_at(initial_ram(), 7) == seq![0xF0u8, 0x10, 0x20, 0x40, 0x40], // 7
        glyph_at(initial_ram(), 8) == seq![0xF0u8, 0x90, 0xF0, 0x90, 0xF0], // 8
        glyph_at(initial_ram(), 9) == seq![0xF0u8, 0x90, 0xF0, 0x10, 0xF0], // 9
        glyph_at(initial_ram(), 10) == seq![0xF0u8, 0x90, 0xF0, 0x90, 0x90], // A
        glyph_at(initial_ram(), 11) == seq![0xE0u8, 0x90, 0xE0, 0x90, 0xE0], // B
        glyph_at(initial_ram(), 12) == seq![0xF0u8, 0x80, 0x80, 0x80, 0xF0], // C
        glyph_at(initial_ram(), 13) == seq![0xE0u8, 0x90, 0x90, 0x90, 0xE0], // D
        glyph_at(initial_ram(), 14) == seq![0xF0u8, 0x80, 0xF0, 0x80, 0xF0], // E
        glyph_at(initial_ram(), 15) == seq![0xF0u8, 0x80, 0xF0, 0x80, 0x80], // F
        forall|d: int| 0 <= d < 16 ==> digit_shown(#[trigger] glyph_at(initial_ram(), d)) == Some(d),
        forall|d1: int, d2: int|
            0 <= d1 < 16 && 0 <= d2 < 16 && d1 != d2 ==> #[trigger] glyph_at(initial_ram(), d1)
                != #[trigger] glyph_at(initial_ram(), d2),
{
    assert(glyph_at(initial_ram(), 0) =~= seq![0xF0u8, 0x90, 0x90, 0x90, 0xF0]);
    assert(glyph_at(initial_ram(), 1) =~= seq![0x20u8, 0x60, 0x20, 0x20, 0x70]);
    assert(glyph_at(initial_ram(), 2) =~= seq![0xF0u8, 0x10, 0xF0, 0x80, 0xF0]);
    assert(glyph_at(initial_ram(), 3) =~= seq![0xF0u8, 0x10, 0xF0, 0x10, 0xF0]);
    assert(glyph_at(initial_ram(), 4) =~= seq![0x90u8, 0x90, 0xF0, 0x10, 0x10]);
    assert(glyph_at(initial_ram(), 5) =~= seq![0xF0u8, 0x80, 0xF0, 0x10, 0xF0]);
    assert(glyph_at(initial_ram(), 6) =~= seq![0xF0u8, 0x80, 0xF0, 0x90, 0xF0]);
    assert(glyph_at(initial_ram(), 7) =~= seq![0xF0u8, 0x10, 0x20, 0x40, 0x40]);
    assert(glyph_at(initial_ram(), 8) =~= seq![0xF0u8, 0x90, 0xF0, 0x90, 0xF0]);
    assert(glyph_at(initial_ram(), 9) =~= seq![0xF0u8, 0x90, 0xF0, 0x10, 0xF0]);
    assert(glyph_at(initial_ram(), 10) =~= seq![0xF0u8, 0x90, 0xF0, 0x90, 0x90]);
    assert(glyph_at(initial_ram(), 11) =~= seq![0xE0u8, 0x90, 0xE0, 0x90, 0xE0]);
    assert(glyph_at(initial_ram(), 12) =~= seq![0xF0u8, 0x80, 0x80, 0x80, 0xF0]);
    assert(glyph_at(initial_ram(), 13) =~= seq![0xE0u8, 0x90, 0x90, 0x90, 0xE0]);
    assert(glyph_at(initial_ram(), 14) =~= seq![0xF0u8, 0x80, 0xF0, 0x80, 0xF0]);
    assert(glyph_at(initial_ram(), 15) =~= seq![0xF0u8, 0x80, 0xF0, 0x80, 0x80]);
    assert forall|d: int| 0 <= d < 16 implies digit_shown(#[trigger] glyph_at(initial_ram(), d))
        == Some(d) by {
        if d == 0 {
        } else if d == 1 {
        } else if d == 2 {
        } else if d == 3 {
        } else if d == 4 {
        } else if d == 5 {
        } else if d == 6 {
        } else if d == 7 {
        } else if d == 8 {
        } else if d == 9 {
        } else if d == 10 {
        } else if d == 11 {
        } else if d == 12 {
        } else if d == 13 {
        } else if d == 14 {
        } else {
        }
    }
    assert forall|d1: int, d2: int|
        0 <= d1 < 16 && 0 <= d2 < 16 && d1 != d2 implies #[trigger] glyph_at(initial_ram(), d1)
        != #[trigger] glyph_at(initial_ram(), d2) by {
        assert(digit_shown(glyph_at(initial_ram(), d1)) == Some(d1));
        assert(digit_shown(glyph_at(initial_ram(), d2)) == Some(d2));
    }
}

/// The font as an array.
fn font_set() -> (font: [u8; FONT_SIZE])
    ensures
        font@ == font_glyphs(),
{
    let font: [u8; FONT_SIZE] = [
        0xF0, 0x90, 0x90, 0x90, 0xF0, // 0
        0x20, 0x60, 0x20, 0x20, 0x70, // 1
        0xF0, 0x10, 0xF0, 0x80, 0xF0, // 2
        0xF0, 0x10, 0xF0, 0x10, 0xF0, // 3
        0x90, 0x90, 0xF0, 0x10, 0x10, // 4
        0xF0, 0x80, 0xF0, 0x10, 0xF0, // 5
        0xF0, 0x80, 0xF0, 0x90, 0xF0, // 6
        0xF0, 0x10, 0x20, 0x40, 0x40, // 7
        0xF0, 0x90, 0xF0, 0x90, 0xF0, // 8
        0xF0, 0x90, 0xF0, 0x10, 0xF0, // 9
        0xF0, 0x90, 0xF0, 0x90, 0x90, // A
        0xE0, 0x90, 0xE0, 0x90, 0xE0, // B
        0xF0, 0x80, 0x80, 0x80, 0xF0, // C
        0xE0, 0x90, 0x90, 0x90, 0xE0, // D
        0xF0, 0x80, 0xF0, 0x80, 0xF0, // E
        0xF0, 0x80, 0xF0, 0x80, 0x80, // F
    ];
    assert(font@ =~= font_glyphs());
    font
}

/// The 4 KiB of CHIP-8 RAM.
pub struct Memory {
    ram: [u8; MEMORY_SIZE],
}

impl View for Memory {
    type V = Seq<u8>;

    closed spec fn view(&self) -> Seq<u8> {
        self.ram@
    }
}

impl Memory {
    /// Every memory holds exactly `MEMORY_SIZE` bytes.
    pub proof fn lemma_len(&self)
        ensures
            self@.len() == MEMORY_SIZE,
    {
    }

    /// Copies `data` into RAM starting at `start`.
    fn copy_in(&mut self, start: usize, data: &[u8])
        requires
            start + data@.len() <= MEMORY_SIZE,
        ensures
            final(self)@ == write_seq(old(self)@, start as int, data@),
    {
        let mut k: usize = 0;
        while k < data.len()
            invariant
                start + data@.len() <= MEMORY_SIZE,
                k <= data@.len(),
                self.ram@ == write_seq(old(self).ram@, start as int, data@.take(k as int)),
            decreases data@.len() - k,
        {
            self.ram[start + k] = data[k];
            k = k + 1;
            assert(self.ram@ =~= write_seq(old(self).ram@, start as int, data@.take(k as int)));
        }
        assert(data@.take(k as int) =~= data@);
    }

    /// A memory holding only the font, at `FONT_START`.
    pub fn new() -> (memory: Self)
        ensures
            memory@ == initial_ram(),
    {
        let mut memory = Memory { ram: [0; MEMORY_SIZE] };
        memory.load_font();
        assert(memory@ =~= initial_ram());
        memory
    }

    /// Writes the font into RAM at `FONT_START`.
    fn load_font(&mut self)
        ensures
            final(self)@ == write_seq(old(self)@, FONT_START as int, font_glyphs()),
    {
        let font = font_set();
        self.copy_in(FONT_START as usize, font.as_slice());
    }

    /// Restores the memory to the state that `new` gives.
    pub fn reset(&mut self)
        ensures
            final(self)@ == initial_ram(),
    {
        *self = Self::new();
    }

    /// Copies `rom` into RAM starting at `PROGRAM_START`; the rest of RAM is
    /// left as it was.
    pub fn load_rom(&mut self, rom: &[u8])
        requires
            PROGRAM_START + rom@.len() <= MEMORY_SIZE,
        ensures
            final(self)@ == write_seq(old(self)@, PROGRAM_START as int, rom@),
    {
        let start = PROGRAM_START as usize;
        self.copy_in(start, rom);
    }

    /// The byte at `addr`.
    pub fn read_byte(&self, addr: u16) -> (value: u8)
        requires
            addr < MEMORY_SIZE,
        ensures
            value == self@[addr as int],
    {
        self.ram[addr as usize]
    }

    /// Stores `value` at `addr`.
    pub fn write_byte(&mut self, addr: u16, value: u8)
        requires
            addr < MEMORY_SIZE,
        ensures
            final(self)@ == old(self)@.update(addr as int, value),
    {
        self.ram[addr as usize] = value;
    }

    /// The big-endian word at `addr` and `addr + 1`, as fetched for an opcode.
    pub fn read_word(&self, addr: u16) -> (word: u16)
        requires
            addr + 1 < MEMORY_SIZE,
        ensures
            word == self@[addr as int] * 256 + self@[addr + 1],
    {
        let hi = self.ram[addr as usize] as u16;
        let lo = self.ram[addr as usize + 1] as u16;
        assert((hi << 8) | lo == hi * 256 + lo) by (bit_vector)
            requires
                hi < 256,
                lo < 256,
        ;
        (hi << 8) | lo
    }

    /// The address of the font glyph for the hexadecimal digit `digit`.
    pub fn font_address(&self, digit: u8) -> (addr: u16)
        ensures
            addr == FONT_START + digit * 5,
    {
        FONT_START + (digit as u16) * 5
    }

    /// The `len` bytes starting at `addr`, as read for a sprite.
    pub fn read_slice(&self, addr: u16, len: u8) -> (bytes: &[u8])
        requires
            addr + len <= MEMORY_SIZE,
        ensures
            bytes@ == self@.subrange(addr as int, addr + len),
    {
        let start = addr as usize;
        let end = start + len as usize;
        &self.ram[start..end]
    }

    /// Stores the hundreds, tens and ones digits of `value` at `addr`,
    /// `addr + 1` and `addr + 2`.
    pub fn write_bcd(&mut self, addr: u16, value: u8)
        requires
            addr + 2 < MEMORY_SIZE,
        ensures
            final(self)@ == old(self)@.update(addr as int, value / 100).update(
                addr + 1,
                (value / 10) % 10,
            ).update(addr + 2, value % 10),
    {
        self.ram[addr as usize] = value / 100;
        self.ram[addr as usize + 1] = (value / 10) % 10;
        self.ram[addr as usize + 2] = value % 10;
    }

    /// Stores `registers` in RAM starting at `addr`.
    pub fn write_registers(&mut self, addr: u16, registers: &[u8])
        requires
            addr + registers@.len() <= MEMORY_SIZE,
        ensures
            final(self)@ == write_seq(old(self)@, addr as int, registers@),
    {
        let start = addr as usize;
        self.copy_in(start, registers);
    }

    /// The `count` bytes starting at `addr`, as loaded into registers.
    pub fn read_registers(&self, addr: u16, count: usize) -> (bytes: &[u8])
        requires
            addr + count <= MEMORY_SIZE,
        ensures
            bytes@ == self@.subrange(addr as int, addr + count),
    {
        let start = addr as usize;
        &self.ram[start..start + count]
    }
}

} // verus!
