use crate::error::ChipError;
use vstd::prelude::*;

verus! {

/// Number of bytes of the built-in font: sixteen glyphs of five rows each.
pub const FONT_BYTES: usize = 80;

/// Largest program image that fits between the program offset and the end of
/// memory.
pub const PROGRAM_SPACE: usize = 3584;

/// The built-in font: the glyphs for `0` to `F`, five rows each, the leftmost
/// pixel of a row in the highest bit.
pub open spec fn font_table() -> Seq<u8> {
    seq![
        0xF0u8, 0x90u8, 0x90u8, 0x90u8, 0xF0u8,
        0x20u8, 0x60u8, 0x20u8, 0x20u8, 0x70u8,
        0xF0u8, 0x10u8, 0xF0u8, 0x80u8, 0xF0u8,
        0xF0u8, 0x10u8, 0xF0u8, 0x10u8, 0xF0u8,
        0x90u8, 0x90u8, 0xF0u8, 0x10u8, 0x10u8,
        0xF0u8, 0x80u8, 0xF0u8, 0x10u8, 0xF0u8,
        0xF0u8, 0x80u8, 0xF0u8, 0x90u8, 0xF0u8,
        0xF0u8, 0x10u8, 0x20u8, 0x40u8, 0x40u8,
        0xF0u8, 0x90u8, 0xF0u8, 0x90u8, 0xF0u8,
        0xF0u8, 0x90u8, 0xF0u8, 0x10u8, 0x90u8,
        0xF0u8, 0x90u8, 0xF0u8, 0x90u8, 0x90u8,
        0xE0u8, 0x90u8, 0xE0u8, 0x90u8, 0xE0u8,
        0xF0u8, 0x80u8, 0x80u8, 0x80u8, 0xF0u8,
        0xE0u8, 0x90u8, 0x90u8, 0x90u8, 0xE0u8,
        0xF0u8, 0x80u8, 0xF0u8, 0x80u8, 0xF0u8,
        0xF0u8, 0x80u8, 0xF0u8, 0x80u8, 0x80u8,
    ]
}

/// Memory at power-on: the font in its lowest bytes, zero everywhere else.
pub open spec fn blank_memory() -> Seq<u8> {
    Seq::new(
        4096,
        |a: int|
            if 0 <= a < 80 {
                font_table()[a]
            } else {
                0u8
            },
    )
}

/// `memory` with the program image `data` copied in from the program offset.
pub open spec fn with_program(memory: Seq<u8>, data: Seq<u8>) -> Seq<u8> {
    Seq::new(
        4096,
        |a: int|
            if 0x200 <= a < 0x200 + data.len() {
                data[a - 0x200]
            } else {
                memory[a]
            },
    )
}

/// The byte that the address `addr` names: addresses wrap at the end of
/// memory.
pub open spec fn byte_at(memory: Seq<u8>, addr: int) -> u8 {
    memory[addr % 4096]
}

/// The instruction word at `pc`: two consecutive bytes, the high one first.
pub open spec fn word_at(memory: Seq<u8>, pc: u16) -> u16 {
    (byte_at(memory, pc as int) * 256 + byte_at(memory, pc + 1)) as u16
}

/// The machine's 4096 bytes of memory.
pub struct Memory {
    bytes: [u8; 4096],
}

impl View for Memory {
    type V = Seq<u8>;

    closed spec fn view(&self) -> Seq<u8> {
        self.bytes@
    }
}

/// The rows of the built-in font, glyph after glyph.
fn font_glyphs() -> (glyphs: [u8; 80])
    ensures
        glyphs@ == font_table(),
{
    let glyphs: [u8; 80] = [
        0xF0, 0x90, 0x90, 0x90, 0xF0,
        0x20, 0x60, 0x20, 0x20, 0x70,
        0xF0, 0x10, 0xF0, 0x80, 0xF0,
        0xF0, 0x10, 0xF0, 0x10, 0xF0,
        0x90, 0x90, 0xF0, 0x10, 0x10,
        0xF0, 0x80, 0xF0, 0x10, 0xF0,
        0xF0, 0x80, 0xF0, 0x90, 0xF0,
        0xF0, 0x10, 0x20, 0x40, 0x40,
        0xF0, 0x90, 0xF0, 0x90, 0xF0,
        0xF0, 0x90, 0xF0, 0x10, 0x90,
        0xF0, 0x90, 0xF0, 0x90, 0x90,
        0xE0, 0x90, 0xE0, 0x90, 0xE0,
        0xF0, 0x80, 0x80, 0x80, 0xF0,
        0xE0, 0x90, 0x90, 0x90, 0xE0,
        0xF0, 0x80, 0xF0, 0x80, 0xF0,
        0xF0, 0x80, 0xF0, 0x80, 0x80,
    ];
    assert(glyphs@ =~= font_table());
    glyphs
}

impl Memory {
    /// Memory always holds exactly 4096 bytes.
    pub proof fn lemma_len(&self)
        ensures
            self@.len() == 4096,
    {
    }

    /// Memory at power-on, with the font in place.
    pub fn new() -> (memory: Memory)
        ensures
            memory@ == blank_memory(),
    {
        let mut memory = Memory { bytes: [0; 4096] };
        memory.load_fonts();
        assert(memory@ =~= blank_memory());
        memory
    }

    /// Writes the built-in font over the lowest bytes of memory.
    pub fn load_fonts(&mut self)
        ensures
            final(self)@.len() == 4096,
            forall|a: int| 0 <= a < 80 ==> final(self)@[a] == font_table()[a],
            forall|a: int| 80 <= a < 4096 ==> final(self)@[a] == old(self)@[a],
    {
        let glyphs = font_glyphs();
        let mut k: usize = 0;
        while k < FONT_BYTES
            invariant
                k <= 80,
                glyphs@ == font_table(),
                self@.len() == 4096,
                forall|a: int| 0 <= a < k ==> self@[a] == font_table()[a],
                forall|a: int| k <= a < 4096 ==> self@[a] == old(self)@[a],
            decreases 80 - k,
        {
            self.bytes[k] = glyphs[k];
            k += 1;
        }
    }

    /// Copies the program image `data` in from the program offset. An image
    /// longer than the space up to the end of memory is refused, and memory
    /// stays as it was.
    pub fn load(&mut self, data: &[u8]) -> (done: Result<(), ChipError>)
        ensures
            data@.len() <= 3584 ==> done is Ok && final(self)@ == with_program(old(self)@, data@),
            data@.len() > 3584 ==> done == Err::<(), ChipError>(ChipError::LoadOverflow)
                && final(self)@ == old(self)@,
    {
        if data.len() > PROGRAM_SPACE {
            return Err(ChipError::LoadOverflow);
        }
        let mut k: usize = 0;
        while k < data.len()
            invariant
                k <= data@.len() <= 3584,
                self@.len() == 4096,
                forall|a: int| 0x200 <= a < 0x200 + k ==> self@[a] == data@[a - 0x200],
                forall|a: int|
                    0 <= a < 4096 && !(0x200 <= a < 0x200 + k) ==> self@[a] == old(self)@[a],
            decreases data@.len() - k,
        {
            self.bytes[k + 0x200] = data[k];
            k += 1;
        }
        assert(self@ =~= with_program(old(self)@, data@));
        Ok(())
    }

    /// The byte at `addr`, taken modulo the size of memory.
    pub fn read(&self, addr: u16) -> (byte: u8)
        ensures
            byte == byte_at(self@, addr as int),
    {
        self.bytes[(addr % 4096) as usize]
    }

    /// Stores `byte` at `addr`, taken modulo the size of memory.
    pub fn write(&mut self, addr: u16, byte: u8)
        ensures
            final(self)@ == old(self)@.update(addr as int % 4096, byte),
    {
        self.bytes[(addr % 4096) as usize] = byte;
    }

    /// The instruction word at `pc`: the byte there is its high half, the
    /// byte after it its low half.
    pub fn fetch(&self, pc: u16) -> (word: u16)
        ensures
            word == word_at(self@, pc),
    {
        let high: u8 = self.bytes[(pc % 4096) as usize];
        let low: u8 = self.bytes[((pc % 4096 + 1) % 4096) as usize];
        high as u16 * 256 + low as u16
    }
}

} // verus!
