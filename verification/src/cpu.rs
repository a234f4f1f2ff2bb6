use crate::error::ChipError;
use crate::instruction::{decode, decode_word, field_class, operand_class, Instruction};
use crate::keys::{key_down, Keys};
use crate::random::random_byte;
use vstd::prelude::*;

verus! {

/// Number of bytes the machine addresses; every address is taken modulo it.
pub const MEMORY_SIZE: u16 = 4096;

/// Address at which a program image is loaded and execution begins.
pub const PROGRAM_START: u16 = 0x200;

/// Address of the first glyph of the built-in font.
pub const FONT_BASE: u16 = 0x000;

/// Bytes per glyph of the built-in font.
pub const GLYPH_BYTES: u16 = 5;

/// Index of the flag register `VF`.
pub const FLAG: u8 = 0xF;

/// The register file, call stack and timers as plain mathematical values.
pub struct CpuState {
    /// The general registers `V0..VF`.
    pub v: Seq<u8>,
    /// The program counter.
    pub pc: u16,
    /// The index register `I`.
    pub i: u16,
    /// The delay timer.
    pub delay_timer: u8,
    /// The sound timer.
    pub sound_timer: u8,
    /// Return addresses, the most recent call last.
    pub stack: Seq<u16>,
}

/// The program counter after one fetch from `pc`: two further, modulo the
/// memory size.
pub open spec fn next_pc(pc: u16) -> u16 {
    ((pc + 2) % 4096) as u16
}

/// The program counter after `n` consecutive fetches that start at `pc`.
pub open spec fn pc_after(pc: u16, n: nat) -> u16
    decreases n,
{
    if n == 0 {
        pc
    } else {
        next_pc(pc_after(pc, (n - 1) as nat))
    }
}

/// One step down for a timer, stopping at zero.
pub open spec fn timer_down(timer: u8) -> u8 {
    if timer > 0 {
        (timer - 1) as u8
    } else {
        0
    }
}

impl CpuState {
    /// There are exactly sixteen general registers.
    pub open spec fn valid(self) -> bool {
        self.v.len() == 16
    }

    /// The state at power-on: everything zero, the stack empty, the program
    /// counter at the start of the program.
    pub open spec fn initial() -> CpuState {
        CpuState {
            v: Seq::new(16, |k: int| 0u8),
            pc: 0x200,
            i: 0,
            delay_timer: 0,
            sound_timer: 0,
            stack: Seq::empty(),
        }
    }

    /// `Vx := value`.
    pub open spec fn set_register(self, x: u8, value: u8) -> CpuState {
        CpuState { v: self.v.update(x as int, value), ..self }
    }

    /// `VF := 1` if `on`, else `VF := 0`.
    pub open spec fn set_flag(self, on: bool) -> CpuState {
        self.set_register(
            0xF,
            if on {
                1
            } else {
                0
            },
        )
    }

    /// The program counter moved past the next instruction if `taken`.
    pub open spec fn skip_if(self, taken: bool) -> CpuState {
        if taken {
            CpuState { pc: next_pc(self.pc), ..self }
        } else {
            self
        }
    }

    /// Both timers one tick later.
    pub open spec fn ticked(self) -> CpuState {
        CpuState {
            delay_timer: timer_down(self.delay_timer),
            sound_timer: timer_down(self.sound_timer),
            ..self
        }
    }

    /// The effect of one instruction on the register file, call stack and
    /// timers. Operands are read before anything is written; where an
    /// instruction writes both `Vx` and `VF`, the writes happen in the order
    /// its description gives. Instructions that need the rest of the machine
    /// leave the state as it is, and a return on an empty stack fails.
    pub open spec fn run(
        self,
        instruction: Instruction,
        keys: Seq<bool>,
        random: u8,
    ) -> Result<CpuState, ChipError> {
        match instruction {
            Instruction::Return => if self.stack.len() == 0 {
                Err(ChipError::StackUnderflow)
            } else {
                Ok(CpuState { pc: self.stack.last(), stack: self.stack.drop_last(), ..self })
            },
            Instruction::Jump { addr } => Ok(CpuState { pc: addr, ..self }),
            Instruction::Call { addr } => Ok(
                CpuState { pc: addr, stack: self.stack.push(self.pc), ..self },
            ),
            Instruction::SkipEqImm { x, nn } => Ok(self.skip_if(self.v[x as int] == nn)),
            Instruction::SkipNeImm { x, nn } => Ok(self.skip_if(self.v[x as int] != nn)),
            Instruction::SkipEqReg { x, y } => Ok(
                self.skip_if(self.v[x as int] == self.v[y as int]),
            ),
            Instruction::SkipNeReg { x, y } => Ok(
                self.skip_if(self.v[x as int] != self.v[y as int]),
            ),
            Instruction::LoadImm { x, nn } => Ok(self.set_register(x, nn)),
            Instruction::AddImm { x, nn } => Ok(
                self.set_register(x, ((self.v[x as int] + nn) % 256) as u8),
            ),
            Instruction::Move { x, y } => Ok(self.set_register(x, self.v[y as int])),
            Instruction::Or { x, y } => Ok(
                self.set_register(x, self.v[x as int] | self.v[y as int]),
            ),
            Instruction::And { x, y } => Ok(
                self.set_register(x, self.v[x as int] & self.v[y as int]),
            ),
            Instruction::Xor { x, y } => Ok(
                self.set_register(x, self.v[x as int] ^ self.v[y as int]),
            ),
            Instruction::AddReg { x, y } => {
                let sum = self.v[x as int] + self.v[y as int];
                Ok(self.set_register(x, (sum % 256) as u8).set_flag(sum > 255))
            },
            Instruction::SubReg { x, y } => {
                let a = self.v[x as int];
                let b = self.v[y as int];
                Ok(self.set_register(x, ((a - b) % 256) as u8).set_flag(a >= b))
            },
            Instruction::SubFrom { x, y } => {
                let a = self.v[x as int];
                let b = self.v[y as int];
                Ok(self.set_register(x, ((b - a) % 256) as u8).set_flag(b >= a))
            },
            Instruction::ShiftRight { x, .. } => {
                let a = self.v[x as int];
                Ok(self.set_flag(a % 2 == 1).set_register(x, a / 2))
            },
            Instruction::ShiftLeft { x, .. } => {
                let a = self.v[x as int];
                Ok(self.set_flag(a >= 128).set_register(x, ((a * 2) % 256) as u8))
            },
            Instruction::LoadIndex { addr } => Ok(CpuState { i: addr, ..self }),
            Instruction::JumpOffset { addr } => Ok(
                CpuState { pc: (addr + self.v[0]) as u16, ..self },
            ),
            Instruction::Random { x, nn } => Ok(self.set_register(x, random & nn)),
            Instruction::SkipKey { x } => Ok(
                self.skip_if(key_down(keys, self.v[x as int] as int)),
            ),
            Instruction::SkipNotKey { x } => Ok(
                self.skip_if(!key_down(keys, self.v[x as int] as int)),
            ),
            Instruction::ReadDelay { x } => Ok(self.set_register(x, self.delay_timer)),
            Instruction::SetDelay { x } => Ok(
                CpuState { delay_timer: self.v[x as int], ..self },
            ),
            Instruction::SetSound { x } => Ok(
                CpuState { sound_timer: self.v[x as int], ..self },
            ),
            Instruction::AddIndex { x } => Ok(
                CpuState { i: ((self.i + self.v[x as int]) % 65536) as u16, ..self },
            ),
            Instruction::FontAddr { x } => Ok(
                CpuState { i: (0x000 + 5 * self.v[x as int]) as u16, ..self },
            ),
            Instruction::ClearScreen
            | Instruction::Draw { .. }
            | Instruction::WaitKey { .. }
            | Instruction::StoreBcd { .. }
            | Instruction::StoreRegs { .. }
            | Instruction::LoadRegs { .. } => Ok(self),
        }
    }

    /// What the instruction table makes of one word on the register file. A
    /// word that matches no pattern fails with the word and the program
    /// counter; an instruction for the rest of the machine is handed back
    /// with the state untouched; any other is carried out.
    pub open spec fn table(
        self,
        word: u16,
        keys: Seq<bool>,
        random: u8,
    ) -> Result<(CpuState, Option<Instruction>), ChipError> {
        match decode_word(word) {
            None => Err(ChipError::Decode { word, pc: self.pc }),
            Some(instruction) => if instruction.needs_machine() {
                Ok((self, Some(instruction)))
            } else {
                match self.run(instruction, keys, random) {
                    Ok(after) => Ok((after, None)),
                    Err(error) => Err(error),
                }
            },
        }
    }
}

/// The register file, the call stack and the two timers.
pub struct CPU {
    v: [u8; 16],
    pc: u16,
    i: u16,
    delay_timer: u8,
    sound_timer: u8,
    stack: Vec<u16>,
}

impl View for CPU {
    type V = CpuState;

    closed spec fn view(&self) -> CpuState {
        CpuState {
            v: self.v@,
            pc: self.pc,
            i: self.i,
            delay_timer: self.delay_timer,
            sound_timer: self.sound_timer,
            stack: self.stack@,
        }
    }
}

impl CPU {
    /// Every register file has its sixteen registers.
    pub proof fn lemma_valid(&self)
        ensures
            self@.valid(),
    {
    }

    /// A register file at power-on.
    pub fn new() -> (cpu: CPU)
        ensures
            cpu@ == CpuState::initial(),
    {
        let cpu = CPU {
            v: [0; 16],
            pc: PROGRAM_START,
            i: 0x0000,
            delay_timer: 0,
            sound_timer: 0,
            stack: Vec::new(),
        };
        assert(cpu@.v =~= CpuState::initial().v);
        cpu
    }

    /// The value of `Vx`.
    pub fn register(&self, x: u8) -> (value: u8)
        requires
            x < 16,
        ensures
            value == self@.v[x as int],
    {
        self.v[x as usize]
    }

    /// `Vx := value`.
    pub fn set_register(&mut self, x: u8, value: u8)
        requires
            x < 16,
        ensures
            final(self)@ == old(self)@.set_register(x, value),
    {
        self.v[x as usize] = value;
    }

    /// The program counter.
    pub fn pc(&self) -> (pc: u16)
        ensures
            pc == self@.pc,
    {
        self.pc
    }

    /// The index register `I`.
    pub fn index(&self) -> (i: u16)
        ensures
            i == self@.i,
    {
        self.i
    }

    /// The delay timer.
    pub fn delay_timer(&self) -> (timer: u8)
        ensures
            timer == self@.delay_timer,
    {
        self.delay_timer
    }

    /// The sound timer.
    pub fn sound_timer(&self) -> (timer: u8)
        ensures
            timer == self@.sound_timer,
    {
        self.sound_timer
    }

    /// The number of calls that have not yet returned.
    pub fn stack_depth(&self) -> (depth: usize)
        ensures
            depth == self@.stack.len(),
    {
        self.stack.len()
    }

    /// Continues at `addr`.
    pub fn jump(&mut self, addr: u16)
        ensures
            final(self)@ == (CpuState { pc: addr, ..old(self)@ }),
    {
        self.pc = addr;
    }

    /// Calls the subroutine at `addr`: the program counter goes on the stack.
    pub fn call(&mut self, addr: u16)
        ensures
            final(self)@ == (CpuState {
                pc: addr,
                stack: old(self)@.stack.push(old(self)@.pc),
                ..old(self)@
            }),
    {
        self.stack.push(self.pc);
        self.pc = addr;
    }

    /// Returns from a subroutine: the program counter comes off the stack.
    /// With the stack empty nothing changes and the return fails.
    pub fn ret(&mut self) -> (done: Result<(), ChipError>)
        ensures
            old(self)@.stack.len() == 0 ==> done == Err::<(), ChipError>(
                ChipError::StackUnderflow,
            ) && final(self)@ == old(self)@,
            old(self)@.stack.len() > 0 ==> done is Ok && final(self)@ == (CpuState {
                pc: old(self)@.stack.last(),
                stack: old(self)@.stack.drop_last(),
                ..old(self)@
            }),
    {
        match self.stack.pop() {
            Some(addr) => {
                self.pc = addr;
                Ok(())
            },
            None => Err(ChipError::StackUnderflow),
        }
    }

    /// Moves the program counter past one instruction.
    pub fn skip(&mut self)
        ensures
            final(self)@ == old(self)@.skip_if(true),
    {
        self.pc = (self.pc % MEMORY_SIZE + 2) % MEMORY_SIZE;
    }

    /// One tick of the external clock: each timer above zero goes down by
    /// one. Executing instructions never does this.
    pub fn tick(&mut self)
        ensures
            final(self)@ == old(self)@.ticked(),
    {
        if self.delay_timer > 0 {
            self.delay_timer -= 1;
        }
        if self.sound_timer > 0 {
            self.sound_timer -= 1;
        }
    }
}

impl CPU {
    /// Carries out one decoded instruction on the register file. On failure
    /// nothing has changed.
    fn run(&mut self, instruction: Instruction, keys: &Keys, random: u8) -> (done: Result<
        (),
        ChipError,
    >)
        requires
            instruction.valid(),
        ensures
            match old(self)@.run(instruction, keys@, random) {
                Ok(after) => done is Ok && final(self)@ == after,
                Err(error) => done == Err::<(), ChipError>(error) && final(self)@ == old(self)@,
            },
    {
        match instruction {
            Instruction::Return => {
                return self.ret();
            },
            Instruction::Jump { addr } => self.jump(addr),
            Instruction::Call { addr } => self.call(addr),
            Instruction::SkipEqImm { x, nn } => {
                if self.v[x as usize] == nn {
                    self.skip();
                }
            },
            Instruction::SkipNeImm { x, nn } => {
                if self.v[x as usize] != nn {
                    self.skip();
                }
            },
            Instruction::SkipEqReg { x, y } => {
                if self.v[x as usize] == self.v[y as usize] {
                    self.skip();
                }
            },
            Instruction::SkipNeReg { x, y } => {
                if self.v[x as usize] != self.v[y as usize] {
                    self.skip();
                }
            },
            Instruction::LoadImm { x, nn } => {
                self.v[x as usize] = nn;
            },
            Instruction::AddImm { x, nn } => {
                let sum: u16 = self.v[x as usize] as u16 + nn as u16;
                self.v[x as usize] = (sum % 256) as u8;
            },
            Instruction::Move { x, y } => {
                self.v[x as usize] = self.v[y as usize];
            },
            Instruction::Or { x, y } => {
                self.v[x as usize] = self.v[x as usize] | self.v[y as usize];
            },
            Instruction::And { x, y } => {
                self.v[x as usize] = self.v[x as usize] & self.v[y as usize];
            },
            Instruction::Xor { x, y } => {
                self.v[x as usize] = self.v[x as usize] ^ self.v[y as usize];
            },
            Instruction::AddReg { x, y } => {
                let sum: u16 = self.v[x as usize] as u16 + self.v[y as usize] as u16;
                self.v[x as usize] = (sum % 256) as u8;
                self.v[FLAG as usize] = if sum > 255 {
                    1
                } else {
                    0
                };
            },
            Instruction::SubReg { x, y } => {
                let a: u8 = self.v[x as usize];
                let b: u8 = self.v[y as usize];
                self.v[x as usize] = ((256 + a as u16 - b as u16) % 256) as u8;
                self.v[FLAG as usize] = if a >= b {
                    1
                } else {
                    0
                };
            },
            Instruction::SubFrom { x, y } => {
                let a: u8 = self.v[x as usize];
                let b: u8 = self.v[y as usize];
                self.v[x as usize] = ((256 + b as u16 - a as u16) % 256) as u8;
                self.v[FLAG as usize] = if b >= a {
                    1
                } else {
                    0
                };
            },
            Instruction::ShiftRight { x, .. } => {
                let a: u8 = self.v[x as usize];
                assert(a & 0x01 == a % 2 && a >> 1 == a / 2) by (bit_vector);
                self.v[FLAG as usize] = a & 0x01;
                self.v[x as usize] = a >> 1;
            },
            Instruction::ShiftLeft { x, .. } => {
                let a: u8 = self.v[x as usize];
                assert((a & 0x80) >> 7 == (if a >= 128 {
                    1u8
                } else {
                    0u8
                }) && a << 1 == (a * 2) % 256) by (bit_vector);
                self.v[FLAG as usize] = (a & 0x80) >> 7;
                self.v[x as usize] = a << 1;
            },
            Instruction::LoadIndex { addr } => {
                self.i = addr;
            },
            Instruction::JumpOffset { addr } => {
                let target: u16 = addr + self.v[0] as u16;
                self.jump(target);
            },
            Instruction::Random { x, nn } => {
                self.v[x as usize] = random & nn;
            },
            Instruction::SkipKey { x } => {
                if keys.is_pressed(self.v[x as usize]) {
                    self.skip();
                }
            },
            Instruction::SkipNotKey { x } => {
                if !keys.is_pressed(self.v[x as usize]) {
                    self.skip();
                }
            },
            Instruction::ReadDelay { x } => {
                self.v[x as usize] = self.delay_timer;
            },
            Instruction::SetDelay { x } => {
                self.delay_timer = self.v[x as usize];
            },
            Instruction::SetSound { x } => {
                self.sound_timer = self.v[x as usize];
            },
            Instruction::AddIndex { x } => {
                let sum: u32 = self.i as u32 + self.v[x as usize] as u32;
                self.i = (sum % 65536) as u16;
            },
            Instruction::FontAddr { x } => {
                self.i = FONT_BASE + GLYPH_BYTES * self.v[x as usize] as u16;
            },
            Instruction::ClearScreen
            | Instruction::Draw { .. }
            | Instruction::WaitKey { .. }
            | Instruction::StoreBcd { .. }
            | Instruction::StoreRegs { .. }
            | Instruction::LoadRegs { .. } => {},
        }
        Ok(())
    }
}

/// Whether going from `before` to `after` with the answer `outcome` is what the
/// instruction table prescribes for `word` under `keys` and the random byte
/// `random`. A failure leaves the state as it was.
pub open spec fn table_gives(
    before: CpuState,
    word: u16,
    keys: Seq<bool>,
    random: u8,
    after: CpuState,
    outcome: Result<Option<Instruction>, ChipError>,
) -> bool {
    match before.table(word, keys, random) {
        Ok((state, rest)) => outcome == Ok::<Option<Instruction>, ChipError>(rest) && after
            == state,
        Err(error) => outcome == Err::<Option<Instruction>, ChipError>(error) && after == before,
    }
}

/// Only the instructions of class `C` look at the random byte.
pub proof fn lemma_random_matters_to_class_c_only(
    state: CpuState,
    word: u16,
    keys: Seq<bool>,
    first: u8,
    second: u8,
)
    requires
        field_class(word) != 0xC,
    ensures
        state.table(word, keys, first) == state.table(word, keys, second),
{
}

impl CPU {
    /// Looks `instruction` up in the instruction table and carries it out on
    /// the register file, with `random` as the byte that a random-number
    /// instruction receives. An instruction that works on memory, the display
    /// or the key-wait state is handed back undone. On failure nothing has
    /// changed.
    pub fn table(&mut self, instruction: u16, keys: &Keys, random: u8) -> (outcome: Result<
        Option<Instruction>,
        ChipError,
    >)
        ensures
            table_gives(old(self)@, instruction, keys@, random, final(self)@, outcome),
            outcome matches Ok(Some(rest)) ==> rest.valid() && rest.needs_machine(),
    {
        match decode(instruction) {
            None => Err(ChipError::Decode { word: instruction, pc: self.pc }),
            Some(decoded) => {
                if decoded.for_machine() {
                    Ok(Some(decoded))
                } else {
                    match self.run(decoded, keys, random) {
                        Ok(()) => Ok(None),
                        Err(error) => Err(error),
                    }
                }
            },
        }
    }

    /// As [`CPU::table`], with the byte for a random-number instruction drawn
    /// from the thread's random generator. Every other instruction is carried
    /// out without a draw, and its outcome is that of the table for any byte.
    pub fn execute(&mut self, instruction: u16, keys: &Keys) -> (outcome: Result<
        Option<Instruction>,
        ChipError,
    >)
        ensures
            exists|random: u8|
                table_gives(old(self)@, instruction, keys@, random, final(self)@, outcome),
            field_class(instruction) != 0xC ==> forall|random: u8|
                table_gives(old(self)@, instruction, keys@, random, final(self)@, outcome),
            outcome matches Ok(Some(rest)) ==> rest.valid() && rest.needs_machine(),
    {
        let class: u8 = operand_class(instruction);
        let random: u8 = if class == 0xC {
            random_byte()
        } else {
            0
        };
        let outcome = self.table(instruction, keys, random);
        proof {
            if class != 0xC {
                assert forall|other: u8|
                    table_gives(old(self)@, instruction, keys@, other, self@, outcome) by {
                    lemma_random_matters_to_class_c_only(
                        old(self)@,
                        instruction,
                        keys@,
                        random,
                        other,
                    );
                }
            }
        }
        outcome
    }
}

/// After `n` consecutive fetches that start at `pc`, the program counter is
/// `pc + 2n` modulo the size of memory.
pub proof fn lemma_pc_after_fetches(pc: u16, n: nat)
    ensures
        n > 0 ==> pc_after(pc, n) == (pc + 2 * n) % 4096,
        n == 0 ==> pc_after(pc, n) == pc,
    decreases n,
{
    if n == 1 {
        assert(pc_after(pc, 0) == pc);
    } else if n > 1 {
        lemma_pc_after_fetches(pc, (n - 1) as nat);
        let before = pc + 2 * (n - 1);
        assert((before % 4096 + 2) % 4096 == (before + 2) % 4096);
    }
}

/// After `n` consecutive fetches from the start of the program, the program
/// counter is `0x200 + 2n` modulo the size of memory.
pub proof fn lemma_pc_after_fetches_from_start(n: nat)
    ensures
        pc_after(0x200, n) == (0x200 + 2 * n) % 4096,
{
    lemma_pc_after_fetches(0x200, n);
}

} // verus!
