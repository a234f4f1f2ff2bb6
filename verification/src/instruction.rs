use vstd::prelude::*;

verus! {

/// One decoded instruction. Register operands `x` and `y` and the row count
/// `n` are four bits wide, immediates `nn` eight, addresses twelve.
#[derive(Clone, Copy, Debug, PartialEq, Eq, Structural)]
pub enum Instruction {
    /// `00E0`: blank the display.
    ClearScreen,
    /// `00EE`: return from a subroutine.
    Return,
    /// `1nnn`: continue at `addr`.
    Jump { addr: u16 },
    /// `2nnn`: call the subroutine at `addr`.
    Call { addr: u16 },
    /// `3xnn`: skip the next instruction if `Vx == nn`.
    SkipEqImm { x: u8, nn: u8 },
    /// `4xnn`: skip the next instruction if `Vx != nn`.
    SkipNeImm { x: u8, nn: u8 },
    /// `5xy0`: skip the next instruction if `Vx == Vy`.
    SkipEqReg { x: u8, y: u8 },
    /// `6xnn`: `Vx := nn`.
    LoadImm { x: u8, nn: u8 },
    /// `7xnn`: `Vx := Vx + nn` modulo 256; the flag register is untouched.
    AddImm { x: u8, nn: u8 },
    /// `8xy0`: `Vx := Vy`.
    Move { x: u8, y: u8 },
    /// `8xy1`: `Vx := Vx | Vy`.
    Or { x: u8, y: u8 },
    /// `8xy2`: `Vx := Vx & Vy`.
    And { x: u8, y: u8 },
    /// `8xy3`: `Vx := Vx ^ Vy`.
    Xor { x: u8, y: u8 },
    /// `8xy4`: `Vx := Vx + Vy` modulo 256, then `VF := 1` on carry, else 0.
    AddReg { x: u8, y: u8 },
    /// `8xy5`: `Vx := Vx - Vy` modulo 256, then `VF := 1` if there was no
    /// borrow, else 0.
    SubReg { x: u8, y: u8 },
    /// `8xy6`: `VF :=` lowest bit of `Vx`, then `Vx := Vx >> 1`.
    ShiftRight { x: u8, y: u8 },
    /// `8xy7`: `Vx := Vy - Vx` modulo 256, then `VF := 1` if there was no
    /// borrow, else 0.
    SubFrom { x: u8, y: u8 },
    /// `8xyE`: `VF :=` highest bit of `Vx`, then `Vx := Vx << 1` modulo 256.
    ShiftLeft { x: u8, y: u8 },
    /// `9xy0`: skip the next instruction if `Vx != Vy`.
    SkipNeReg { x: u8, y: u8 },
    /// `Annn`: `I := addr`.
    LoadIndex { addr: u16 },
    /// `Bnnn`: continue at `addr + V0`.
    JumpOffset { addr: u16 },
    /// `Cxnn`: `Vx :=` a random byte masked with `nn`.
    Random { x: u8, nn: u8 },
    /// `Dxyn`: draw the `n`-row sprite at `I` at column `Vx`, row `Vy`.
    Draw { x: u8, y: u8, n: u8 },
    /// `Ex9E`: skip the next instruction if the key `Vx` is held.
    SkipKey { x: u8 },
    /// `ExA1`: skip the next instruction if the key `Vx` is not held.
    SkipNotKey { x: u8 },
    /// `Fx07`: `Vx :=` delay timer.
    ReadDelay { x: u8 },
    /// `Fx0A`: wait for a key and put its code in `Vx`.
    WaitKey { x: u8 },
    /// `Fx15`: delay timer `:= Vx`.
    SetDelay { x: u8 },
    /// `Fx18`: sound timer `:= Vx`.
    SetSound { x: u8 },
    /// `Fx1E`: `I := I + Vx`.
    AddIndex { x: u8 },
    /// `Fx29`: `I :=` address of the glyph for `Vx`.
    FontAddr { x: u8 },
    /// `Fx33`: store the three decimal digits of `Vx` at `I`, `I+1`, `I+2`.
    StoreBcd { x: u8 },
    /// `Fx55`: store `V0..=Vx` at `I..=I+x`.
    StoreRegs { x: u8 },
    /// `Fx65`: load `V0..=Vx` from `I..=I+x`.
    LoadRegs { x: u8 },
}

/// The operation class of `word`: its top four bits.
pub open spec fn field_class(word: u16) -> u8 {
    (word / 4096) as u8
}

/// The operand `x` of `word`: bits 8 to 11.
pub open spec fn field_x(word: u16) -> u8 {
    ((word / 256) % 16) as u8
}

/// The operand `y` of `word`: bits 4 to 7.
pub open spec fn field_y(word: u16) -> u8 {
    ((word / 16) % 16) as u8
}

/// The operand `n` of `word`: bits 0 to 3.
pub open spec fn field_n(word: u16) -> u8 {
    (word % 16) as u8
}

/// The operand `nn` of `word`: bits 0 to 7.
pub open spec fn field_nn(word: u16) -> u8 {
    (word % 256) as u8
}

/// The operand `nnn` of `word`: bits 0 to 11.
pub open spec fn field_nnn(word: u16) -> u16 {
    (word % 4096) as u16
}

/// The arithmetic and logic instructions, class 8, told apart by `n`.
pub open spec fn decode_alu(x: u8, y: u8, n: u8) -> Option<Instruction> {
    if n == 0x0 {
        Some(Instruction::Move { x, y })
    } else if n == 0x1 {
        Some(Instruction::Or { x, y })
    } else if n == 0x2 {
        Some(Instruction::And { x, y })
    } else if n == 0x3 {
        Some(Instruction::Xor { x, y })
    } else if n == 0x4 {
        Some(Instruction::AddReg { x, y })
    } else if n == 0x5 {
        Some(Instruction::SubReg { x, y })
    } else if n == 0x6 {
        Some(Instruction::ShiftRight { x, y })
    } else if n == 0x7 {
        Some(Instruction::SubFrom { x, y })
    } else if n == 0xE {
        Some(Instruction::ShiftLeft { x, y })
    } else {
        None
    }
}

/// The timer, index and memory instructions, class F, told apart by `nn`.
pub open spec fn decode_misc(x: u8, nn: u8) -> Option<Instruction> {
    if nn == 0x07 {
        Some(Instruction::ReadDelay { x })
    } else if nn == 0x0A {
        Some(Instruction::WaitKey { x })
    } else if nn == 0x15 {
        Some(Instruction::SetDelay { x })
    } else if nn == 0x18 {
        Some(Instruction::SetSound { x })
    } else if nn == 0x1E {
        Some(Instruction::AddIndex { x })
    } else if nn == 0x29 {
        Some(Instruction::FontAddr { x })
    } else if nn == 0x33 {
        Some(Instruction::StoreBcd { x })
    } else if nn == 0x55 {
        Some(Instruction::StoreRegs { x })
    } else if nn == 0x65 {
        Some(Instruction::LoadRegs { x })
    } else {
        None
    }
}

/// The instruction that `word` stands for, or `None` where it matches no
/// pattern of the instruction table.
pub open spec fn decode_word(word: u16) -> Option<Instruction> {
    let class = field_class(word);
    let x = field_x(word);
    let y = field_y(word);
    let n = field_n(word);
    let nn = field_nn(word);
    let addr = field_nnn(word);
    if class == 0x0 {
        if addr == 0x0E0 {
            Some(Instruction::ClearScreen)
        } else if addr == 0x0EE {
            Some(Instruction::Return)
        } else {
            None
        }
    } else if class == 0x1 {
        Some(Instruction::Jump { addr })
    } else if class == 0x2 {
        Some(Instruction::Call { addr })
    } else if class == 0x3 {
        Some(Instruction::SkipEqImm { x, nn })
    } else if class == 0x4 {
        Some(Instruction::SkipNeImm { x, nn })
    } else if class == 0x5 {
        if n == 0 {
            Some(Instruction::SkipEqReg { x, y })
        } else {
            None
        }
    } else if class == 0x6 {
        Some(Instruction::LoadImm { x, nn })
    } else if class == 0x7 {
        Some(Instruction::AddImm { x, nn })
    } else if class == 0x8 {
        decode_alu(x, y, n)
    } else if class == 0x9 {
        if n == 0 {
            Some(Instruction::SkipNeReg { x, y })
        } else {
            None
        }
    } else if class == 0xA {
        Some(Instruction::LoadIndex { addr })
    } else if class == 0xB {
        Some(Instruction::JumpOffset { addr })
    } else if class == 0xC {
        Some(Instruction::Random { x, nn })
    } else if class == 0xD {
        Some(Instruction::Draw { x, y, n })
    } else if class == 0xE {
        if nn == 0x9E {
            Some(Instruction::SkipKey { x })
        } else if nn == 0xA1 {
            Some(Instruction::SkipNotKey { x })
        } else {
            None
        }
    } else {
        decode_misc(x, nn)
    }
}

impl Instruction {
    /// Every operand lies within its width.
    pub open spec fn valid(self) -> bool {
        match self {
            Instruction::ClearScreen | Instruction::Return => true,
            Instruction::Jump { addr }
            | Instruction::Call { addr }
            | Instruction::LoadIndex { addr }
            | Instruction::JumpOffset { addr } => addr < 4096,
            Instruction::SkipEqImm { x, .. }
            | Instruction::SkipNeImm { x, .. }
            | Instruction::LoadImm { x, .. }
            | Instruction::AddImm { x, .. }
            | Instruction::Random { x, .. }
            | Instruction::SkipKey { x }
            | Instruction::SkipNotKey { x }
            | Instruction::ReadDelay { x }
            | Instruction::WaitKey { x }
            | Instruction::SetDelay { x }
            | Instruction::SetSound { x }
            | Instruction::AddIndex { x }
            | Instruction::FontAddr { x }
            | Instruction::StoreBcd { x }
            | Instruction::StoreRegs { x }
            | Instruction::LoadRegs { x } => x < 16,
            Instruction::SkipEqReg { x, y }
            | Instruction::Move { x, y }
            | Instruction::Or { x, y }
            | Instruction::And { x, y }
            | Instruction::Xor { x, y }
            | Instruction::AddReg { x, y }
            | Instruction::SubReg { x, y }
            | Instruction::ShiftRight { x, y }
            | Instruction::SubFrom { x, y }
            | Instruction::ShiftLeft { x, y }
            | Instruction::SkipNeReg { x, y } => x < 16 && y < 16,
            Instruction::Draw { x, y, n } => x < 16 && y < 16 && n < 16,
        }
    }

    /// Whether the instruction works on memory, the display or the key-wait
    /// state, which the register file alone cannot serve.
    pub open spec fn needs_machine(self) -> bool {
        match self {
            Instruction::ClearScreen
            | Instruction::Draw { .. }
            | Instruction::WaitKey { .. }
            | Instruction::StoreBcd { .. }
            | Instruction::StoreRegs { .. }
            | Instruction::LoadRegs { .. } => true,
            _ => false,
        }
    }
}

impl Instruction {
    /// Whether the instruction works on memory, the display or the key-wait
    /// state.
    pub fn for_machine(&self) -> (answer: bool)
        ensures
            answer == self.needs_machine(),
    {
        match self {
            Instruction::ClearScreen
            | Instruction::Draw { .. }
            | Instruction::WaitKey { .. }
            | Instruction::StoreBcd { .. }
            | Instruction::StoreRegs { .. }
            | Instruction::LoadRegs { .. } => true,
            _ => false,
        }
    }
}

/// The top four bits of `word`.
pub fn operand_class(word: u16) -> (class: u8)
    ensures
        class == field_class(word),
        class < 16,
{
    assert(word >> 12 == word / 4096) by (bit_vector);
    (word >> 12) as u8
}

/// Bits 8 to 11 of `word`.
pub fn operand_x(word: u16) -> (x: u8)
    ensures
        x == field_x(word),
        x < 16,
{
    assert((word & 0x0F00) >> 8 == (word / 256) % 16) by (bit_vector);
    ((word & 0x0F00) >> 8) as u8
}

/// Bits 4 to 7 of `word`.
pub fn operand_y(word: u16) -> (y: u8)
    ensures
        y == field_y(word),
        y < 16,
{
    assert((word & 0x00F0) >> 4 == (word / 16) % 16) by (bit_vector);
    ((word & 0x00F0) >> 4) as u8
}

/// Bits 0 to 3 of `word`.
pub fn operand_n(word: u16) -> (n: u8)
    ensures
        n == field_n(word),
        n < 16,
{
    assert(word & 0x000F == word % 16) by (bit_vector);
    (word & 0x000F) as u8
}

/// Bits 0 to 7 of `word`.
pub fn operand_nn(word: u16) -> (nn: u8)
    ensures
        nn == field_nn(word),
{
    assert(word & 0x00FF == word % 256) by (bit_vector);
    (word & 0x00FF) as u8
}

/// Bits 0 to 11 of `word`.
pub fn operand_nnn(word: u16) -> (addr: u16)
    ensures
        addr == field_nnn(word),
        addr < 4096,
{
    assert(word & 0x0FFF == word % 4096) by (bit_vector);
    word & 0x0FFF
}

/// Decodes one instruction word. Reads nothing but the word.
pub fn decode(word: u16) -> (decoded: Option<Instruction>)
    ensures
        decoded == decode_word(word),
        decoded matches Some(instruction) ==> instruction.valid(),
{
    let class: u8 = operand_class(word);
    let x: u8 = operand_x(word);
    let y: u8 = operand_y(word);
    let n: u8 = operand_n(word);
    let nn: u8 = operand_nn(word);
    let addr: u16 = operand_nnn(word);
    match class {
        0x0 => match addr {
            0x0E0 => Some(Instruction::ClearScreen),
            0x0EE => Some(Instruction::Return),
            _ => None,
        },
        0x1 => Some(Instruction::Jump { addr }),
        0x2 => Some(Instruction::Call { addr }),
        0x3 => Some(Instruction::SkipEqImm { x, nn }),
        0x4 => Some(Instruction::SkipNeImm { x, nn }),
        0x5 => if n == 0 {
            Some(Instruction::SkipEqReg { x, y })
        } else {
            None
        },
        0x6 => Some(Instruction::LoadImm { x, nn }),
        0x7 => Some(Instruction::AddImm { x, nn }),
        0x8 => match n {
            0x0 => Some(Instruction::Move { x, y }),
            0x1 => Some(Instruction::Or { x, y }),
            0x2 => Some(Instruction::And { x, y }),
            0x3 => Some(Instruction::Xor { x, y }),
            0x4 => Some(Instruction::AddReg { x, y }),
            0x5 => Some(Instruction::SubReg { x, y }),
            0x6 => Some(Instruction::ShiftRight { x, y }),
            0x7 => Some(Instruction::SubFrom { x, y }),
            0xE => Some(Instruction::ShiftLeft { x, y }),
            _ => None,
        },
        0x9 => if n == 0 {
            Some(Instruction::SkipNeReg { x, y })
        } else {
            None
        },
        0xA => Some(Instruction::LoadIndex { addr }),
        0xB => Some(Instruction::JumpOffset { addr }),
        0xC => Some(Instruction::Random { x, nn }),
        0xD => Some(Instruction::Draw { x, y, n }),
        0xE => match nn {
            0x9E => Some(Instruction::SkipKey { x }),
            0xA1 => Some(Instruction::SkipNotKey { x }),
            _ => None,
        },
        _ => match nn {
            0x07 => Some(Instruction::ReadDelay { x }),
            0x0A => Some(Instruction::WaitKey { x }),
            0x15 => Some(Instruction::SetDelay { x }),
            0x18 => Some(Instruction::SetSound { x }),
            0x1E => Some(Instruction::AddIndex { x }),
            0x29 => Some(Instruction::FontAddr { x }),
            0x33 => Some(Instruction::StoreBcd { x }),
            0x55 => Some(Instruction::StoreRegs { x }),
            0x65 => Some(Instruction::LoadRegs { x }),
            _ => None,
        },
    }
}

/// Every word that decodes yields operands within their widths.
pub proof fn lemma_decoded_valid(word: u16)
    ensures
        decode_word(word) matches Some(instruction) ==> instruction.valid(),
{
}

/// The word with operation class `class` and the operands `x`, `y`, `n` in
/// its three lower groups of four bits.
pub open spec fn word_of(class: u8, x: u8, y: u8, n: u8) -> u16 {
    (4096 * class + 256 * x + 16 * y + n) as u16
}

/// The word with operation class `class`, the operand `x` and the byte `nn`.
pub open spec fn word_with_byte(class: u8, x: u8, nn: u8) -> u16 {
    (4096 * class + 256 * x + nn) as u16
}

/// The word with operation class `class` and the address `addr`.
pub open spec fn word_with_addr(class: u8, addr: u16) -> u16 {
    (4096 * class + addr) as u16
}

/// The fields of a word built from four operands are those operands.
pub proof fn lemma_fields_of_word(class: u8, x: u8, y: u8, n: u8)
    requires
        class < 16,
        x < 16,
        y < 16,
        n < 16,
    ensures
        field_class(word_of(class, x, y, n)) == class,
        field_x(word_of(class, x, y, n)) == x,
        field_y(word_of(class, x, y, n)) == y,
        field_n(word_of(class, x, y, n)) == n,
        field_nn(word_of(class, x, y, n)) == 16 * y + n,
        field_nnn(word_of(class, x, y, n)) == 256 * x + 16 * y + n,
{
    let c = class as u16;
    let a = x as u16;
    let b = y as u16;
    let d = n as u16;
    let w = word_of(class, x, y, n);
    assert(w / 4096 == c && (w / 256) % 16 == a && (w / 16) % 16 == b && w % 16 == d && w % 256
        == 16 * b + d && w % 4096 == 256 * a + 16 * b + d) by (bit_vector)
        requires
            c < 16,
            a < 16,
            b < 16,
            d < 16,
            w == 4096 * c + 256 * a + 16 * b + d,
    ;
}

/// The fields of a word built from an operand and a byte.
pub proof fn lemma_fields_of_word_with_byte(class: u8, x: u8, nn: u8)
    requires
        class < 16,
        x < 16,
    ensures
        field_class(word_with_byte(class, x, nn)) == class,
        field_x(word_with_byte(class, x, nn)) == x,
        field_nn(word_with_byte(class, x, nn)) == nn,
{
    let c = class as u16;
    let a = x as u16;
    let b = nn as u16;
    let w = word_with_byte(class, x, nn);
    assert(w / 4096 == c && (w / 256) % 16 == a && w % 256 == b) by (bit_vector)
        requires
            c < 16,
            a < 16,
            b < 256,
            w == 4096 * c + 256 * a + b,
    ;
}

/// The fields of a word built from an address.
pub proof fn lemma_fields_of_word_with_addr(class: u8, addr: u16)
    requires
        class < 16,
        addr < 4096,
    ensures
        field_class(word_with_addr(class, addr)) == class,
        field_nnn(word_with_addr(class, addr)) == addr,
{
    let c = class as u16;
    let w = word_with_addr(class, addr);
    assert(w / 4096 == c && w % 4096 == addr) by (bit_vector)
        requires
            c < 16,
            addr < 4096,
            w == 4096 * c + addr,
    ;
}

/// The instruction word that stands for `instruction`.
pub open spec fn encode(instruction: Instruction) -> u16 {
    match instruction {
        Instruction::ClearScreen => 0x00E0,
        Instruction::Return => 0x00EE,
        Instruction::Jump { addr } => word_with_addr(0x1, addr),
        Instruction::Call { addr } => word_with_addr(0x2, addr),
        Instruction::SkipEqImm { x, nn } => word_with_byte(0x3, x, nn),
        Instruction::SkipNeImm { x, nn } => word_with_byte(0x4, x, nn),
        Instruction::SkipEqReg { x, y } => word_of(0x5, x, y, 0),
        Instruction::LoadImm { x, nn } => word_with_byte(0x6, x, nn),
        Instruction::AddImm { x, nn } => word_with_byte(0x7, x, nn),
        Instruction::Move { x, y } => word_of(0x8, x, y, 0x0),
        Instruction::Or { x, y } => word_of(0x8, x, y, 0x1),
        Instruction::And { x, y } => word_of(0x8, x, y, 0x2),
        Instruction::Xor { x, y } => word_of(0x8, x, y, 0x3),
        Instruction::AddReg { x, y } => word_of(0x8, x, y, 0x4),
        Instruction::SubReg { x, y } => word_of(0x8, x, y, 0x5),
        Instruction::ShiftRight { x, y } => word_of(0x8, x, y, 0x6),
        Instruction::SubFrom { x, y } => word_of(0x8, x, y, 0x7),
        Instruction::ShiftLeft { x, y } => word_of(0x8, x, y, 0xE),
        Instruction::SkipNeReg { x, y } => word_of(0x9, x, y, 0),
        Instruction::LoadIndex { addr } => word_with_addr(0xA, addr),
        Instruction::JumpOffset { addr } => word_with_addr(0xB, addr),
        Instruction::Random { x, nn } => word_with_byte(0xC, x, nn),
        Instruction::Draw { x, y, n } => word_of(0xD, x, y, n),
        Instruction::SkipKey { x } => word_with_byte(0xE, x, 0x9E),
        Instruction::SkipNotKey { x } => word_with_byte(0xE, x, 0xA1),
        Instruction::ReadDelay { x } => word_with_byte(0xF, x, 0x07),
        Instruction::WaitKey { x } => word_with_byte(0xF, x, 0x0A),
        Instruction::SetDelay { x } => word_with_byte(0xF, x, 0x15),
        Instruction::SetSound { x } => word_with_byte(0xF, x, 0x18),
        Instruction::AddIndex { x } => word_with_byte(0xF, x, 0x1E),
        Instruction::FontAddr { x } => word_with_byte(0xF, x, 0x29),
        Instruction::StoreBcd { x } => word_with_byte(0xF, x, 0x33),
        Instruction::StoreRegs { x } => word_with_byte(0xF, x, 0x55),
        Instruction::LoadRegs { x } => word_with_byte(0xF, x, 0x65),
    }
}

/// Decoding undoes encoding: every instruction with operands within their
/// widths is decoded from its own word.
pub proof fn lemma_decode_encode(instruction: Instruction)
    requires
        instruction.valid(),
    ensures
        decode_word(encode(instruction)) == Some(instruction),
{
    match instruction {
        Instruction::ClearScreen | Instruction::Return => {},
        Instruction::Jump { addr } => lemma_fields_of_word_with_addr(0x1, addr),
        Instruction::Call { addr } => lemma_fields_of_word_with_addr(0x2, addr),
        Instruction::SkipEqImm { x, nn } => lemma_fields_of_word_with_byte(0x3, x, nn),
        Instruction::SkipNeImm { x, nn } => lemma_fields_of_word_with_byte(0x4, x, nn),
        Instruction::SkipEqReg { x, y } => lemma_fields_of_word(0x5, x, y, 0),
        Instruction::LoadImm { x, nn } => lemma_fields_of_word_with_byte(0x6, x, nn),
        Instruction::AddImm { x, nn } => lemma_fields_of_word_with_byte(0x7, x, nn),
        Instruction::Move { x, y } => lemma_fields_of_word(0x8, x, y, 0x0),
        Instruction::Or { x, y } => lemma_fields_of_word(0x8, x, y, 0x1),
        Instruction::And { x, y } => lemma_fields_of_word(0x8, x, y, 0x2),
        Instruction::Xor { x, y } => lemma_fields_of_word(0x8, x, y, 0x3),
        Instruction::AddReg { x, y } => lemma_fields_of_word(0x8, x, y, 0x4),
        Instruction::SubReg { x, y } => lemma_fields_of_word(0x8, x, y, 0x5),
        Instruction::ShiftRight { x, y } => lemma_fields_of_word(0x8, x, y, 0x6),
        Instruction::SubFrom { x, y } => lemma_fields_of_word(0x8, x, y, 0x7),
        Instruction::ShiftLeft { x, y } => lemma_fields_of_word(0x8, x, y, 0xE),
        Instruction::SkipNeReg { x, y } => lemma_fields_of_word(0x9, x, y, 0),
        Instruction::LoadIndex { addr } => lemma_fields_of_word_with_addr(0xA, addr),
        Instruction::JumpOffset { addr } => lemma_fields_of_word_with_addr(0xB, addr),
        Instruction::Random { x, nn } => lemma_fields_of_word_with_byte(0xC, x, nn),
        Instruction::Draw { x, y, n } => lemma_fields_of_word(0xD, x, y, n),
        Instruction::SkipKey { x } => lemma_fields_of_word_with_byte(0xE, x, 0x9E),
        Instruction::SkipNotKey { x } => lemma_fields_of_word_with_byte(0xE, x, 0xA1),
        Instruction::ReadDelay { x } => lemma_fields_of_word_with_byte(0xF, x, 0x07),
        Instruction::WaitKey { x } => lemma_fields_of_word_with_byte(0xF, x, 0x0A),
        Instruction::SetDelay { x } => lemma_fields_of_word_with_byte(0xF, x, 0x15),
        Instruction::SetSound { x } => lemma_fields_of_word_with_byte(0xF, x, 0x18),
        Instruction::AddIndex { x } => lemma_fields_of_word_with_byte(0xF, x, 0x1E),
        Instruction::FontAddr { x } => lemma_fields_of_word_with_byte(0xF, x, 0x29),
        Instruction::StoreBcd { x } => lemma_fields_of_word_with_byte(0xF, x, 0x33),
        Instruction::StoreRegs { x } => lemma_fields_of_word_with_byte(0xF, x, 0x55),
        Instruction::LoadRegs { x } => lemma_fields_of_word_with_byte(0xF, x, 0x65),
    }
}

} // verus!
