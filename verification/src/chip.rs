use crate::cpu::{next_pc, CpuState, CPU, FLAG};
use crate::display::{
    blank_grid, collides, drawn, grid_shaped, lemma_dark_grid_counts_none, lit_in_grid, Display,
};
use crate::error::ChipError;
use crate::instruction::{
    decode_word, encode, field_class, lemma_decode_encode, lemma_decoded_valid, operand_class, Instruction,
};
use crate::keys::{key_down, lemma_lowest_down, lowest_down, Keys};
use crate::memory::{blank_memory, byte_at, with_program, word_at, Memory};
use crate::random::random_byte;
use vstd::prelude::*;

verus! {

/// What the machine asks of its surroundings after a step.
#[derive(Clone, Copy, Debug, PartialEq, Eq, Structural)]
pub enum Effect {
    /// Nothing to do.
    Nothing,
    /// A sprite was drawn: the display should be presented anew.
    Present,
}

/// The whole machine as plain mathematical values.
pub struct ChipState {
    /// Register file, call stack and timers.
    pub cpu: CpuState,
    /// The 4096 bytes of memory.
    pub memory: Seq<u8>,
    /// The display, row by row.
    pub display: Seq<Seq<bool>>,
    /// The register that receives the next key while the machine waits for
    /// one; `None` while it runs.
    pub waiting: Option<u8>,
}

impl ChipState {
    /// The parts have their shapes, and a register waited on exists.
    pub open spec fn valid(self) -> bool {
        &&& self.cpu.valid()
        &&& self.memory.len() == 4096
        &&& grid_shaped(self.display)
        &&& self.waiting matches Some(x) ==> x < 16
    }

    /// The machine at power-on with the program image `data` loaded.
    pub open spec fn initial(data: Seq<u8>) -> ChipState {
        ChipState {
            cpu: CpuState::initial(),
            memory: with_program(blank_memory(), data),
            display: blank_grid(),
            waiting: None,
        }
    }

    /// The byte `k` places after `I`.
    pub open spec fn at_index(self, k: int) -> u8 {
        byte_at(self.memory, self.cpu.i + k)
    }

    /// The `n` sprite rows that start at `I`.
    pub open spec fn sprite(self, n: u8) -> Seq<u8> {
        Seq::new(n as nat, |k: int| self.at_index(k))
    }

    /// Memory after `V0..=Vx` are stored from `I` on.
    pub open spec fn registers_stored(self, x: u8) -> Seq<u8> {
        Seq::new(
            4096,
            |a: int|
                {
                    let k = (a - self.cpu.i) % 4096;
                    if k <= x {
                        self.cpu.v[k]
                    } else {
                        self.memory[a]
                    }
                },
        )
    }

    /// The registers after `V0..=Vx` are loaded from `I` on.
    pub open spec fn registers_loaded(self, x: u8) -> Seq<u8> {
        Seq::new(
            16,
            |k: int|
                if k <= x {
                    self.at_index(k)
                } else {
                    self.cpu.v[k]
                },
        )
    }

    /// Memory after the decimal digits of `value` are stored at `I`, `I+1`
    /// and `I+2`: hundreds, tens, ones.
    pub open spec fn digits_stored(self, value: u8) -> Seq<u8> {
        let i = self.cpu.i as int;
        self.memory.update(i % 4096, value / 100).update(
            (i + 1) % 4096,
            ((value / 10) % 10) as u8,
        ).update((i + 2) % 4096, value % 10)
    }

    /// The effect of an instruction that works on memory, the display or the
    /// key-wait state. Any other instruction changes nothing here.
    pub open spec fn run_machine(self, instruction: Instruction) -> (ChipState, Effect) {
        match instruction {
            Instruction::ClearScreen => (
                ChipState { display: blank_grid(), ..self },
                Effect::Nothing,
            ),
            Instruction::Draw { x, y, n } => {
                let left = self.cpu.v[x as int] as int;
                let top = self.cpu.v[y as int] as int;
                (
                    ChipState {
                        cpu: self.cpu.set_flag(collides(self.display, self.sprite(n), left, top)),
                        display: drawn(self.display, self.sprite(n), left, top),
                        ..self
                    },
                    Effect::Present,
                )
            },
            Instruction::WaitKey { x } => (ChipState { waiting: Some(x), ..self }, Effect::Nothing),
            Instruction::StoreBcd { x } => (
                ChipState { memory: self.digits_stored(self.cpu.v[x as int]), ..self },
                Effect::Nothing,
            ),
            Instruction::StoreRegs { x } => (
                ChipState { memory: self.registers_stored(x), ..self },
                Effect::Nothing,
            ),
            Instruction::LoadRegs { x } => (
                ChipState { cpu: CpuState { v: self.registers_loaded(x), ..self.cpu }, ..self },
                Effect::Nothing,
            ),
            _ => (self, Effect::Nothing),
        }
    }

    /// What executing the instruction word `word` does to the machine, with
    /// the keys held as in `keys` and `random` as the byte that a
    /// random-number instruction receives.
    pub open spec fn execute(self, word: u16, keys: Seq<bool>, random: u8) -> Result<
        (ChipState, Effect),
        ChipError,
    > {
        match self.cpu.table(word, keys, random) {
            Err(error) => Err(error),
            Ok((cpu, None)) => Ok((ChipState { cpu, ..self }, Effect::Nothing)),
            Ok((_, Some(instruction))) => Ok(self.run_machine(instruction)),
        }
    }

    /// The machine with the program counter moved past the word it points at.
    pub open spec fn fetched(self) -> ChipState {
        ChipState { cpu: CpuState { pc: next_pc(self.cpu.pc), ..self.cpu }, ..self }
    }

    /// One step of the machine. While it waits for a key, a step looks at the
    /// keys: the lowest one held goes to the register waited on and the wait
    /// ends; with none held nothing happens. Otherwise a step fetches the
    /// word at the program counter, moves the counter on and executes the
    /// word. A decode failure names the address of the word.
    pub open spec fn step(self, keys: Seq<bool>, random: u8) -> Result<
        (ChipState, Effect),
        ChipError,
    > {
        match self.waiting {
            Some(x) => match lowest_down(keys, 0) {
                Some(key) => Ok(
                    (
                        ChipState { cpu: self.cpu.set_register(x, key), waiting: None, ..self },
                        Effect::Nothing,
                    ),
                ),
                None => Ok((self, Effect::Nothing)),
            },
            None => match self.fetched().execute(word_at(self.memory, self.cpu.pc), keys, random) {
                Ok(done) => Ok(done),
                Err(ChipError::Decode { word, .. }) => Err(
                    ChipError::Decode { word, pc: self.cpu.pc },
                ),
                Err(error) => Err(error),
            },
        }
    }

    /// The machine one tick of the external clock later.
    pub open spec fn ticked(self) -> ChipState {
        ChipState { cpu: self.cpu.ticked(), ..self }
    }
}

/// Whether going from `before` to `after` with the answer `outcome` is what
/// `expected` prescribes. A failure leaves the machine as it was.
pub open spec fn outcome_is(
    before: ChipState,
    after: ChipState,
    outcome: Result<Effect, ChipError>,
    expected: Result<(ChipState, Effect), ChipError>,
) -> bool {
    match expected {
        Ok((state, effect)) => outcome == Ok::<Effect, ChipError>(effect) && after == state,
        Err(error) => outcome == Err::<Effect, ChipError>(error) && after == before,
    }
}

/// Whether the machine waits for a key, and for which register. A register
/// waited on is always one of the sixteen.
struct KeyWait {
    register: Option<u8>,
}

impl KeyWait {
    #[verifier::type_invariant]
    spec fn names_a_register(self) -> bool {
        self.register matches Some(x) ==> x < 16
    }

    /// Not waiting.
    fn idle() -> (wait: KeyWait)
        ensures
            wait.register is None,
    {
        KeyWait { register: None }
    }

    /// Waiting for a key for `Vx`.
    fn on(x: u8) -> (wait: KeyWait)
        requires
            x < 16,
        ensures
            wait.register == Some(x),
    {
        KeyWait { register: Some(x) }
    }

    /// The register waited on, if any.
    fn get(&self) -> (register: Option<u8>)
        ensures
            register == self.register,
            register matches Some(x) ==> x < 16,
    {
        proof {
            use_type_invariant(self);
        }
        self.register
    }
}

/// The interpreter: register file, memory and display, and whether it is
/// waiting for a key.
pub struct Chip {
    cpu: CPU,
    memory: Memory,
    display: Display,
    waiting: KeyWait,
}

impl View for Chip {
    type V = ChipState;

    closed spec fn view(&self) -> ChipState {
        ChipState {
            cpu: self.cpu@,
            memory: self.memory@,
            display: self.display@,
            waiting: self.waiting.register,
        }
    }
}

impl Chip {
    /// Builds the machine and loads the program image `data` at the program
    /// offset. An image that does not fit is refused.
    pub fn new(data: Vec<u8>) -> (built: Result<Chip, ChipError>)
        ensures
            data@.len() <= 3584 ==> built is Ok && built->Ok_0@ == ChipState::initial(data@),
            data@.len() > 3584 ==> built is Err && built->Err_0 == ChipError::LoadOverflow,
            built matches Ok(chip) ==> chip@.valid(),
    {
        let mut memory = Memory::new();
        match memory.load(data.as_slice()) {
            Ok(()) => Ok(
                Chip { cpu: CPU::new(), memory, display: Display::new(), waiting: KeyWait::idle() },
            ),
            Err(error) => Err(error),
        }
    }

    /// The register file.
    pub fn cpu(&self) -> (cpu: &CPU)
        ensures
            cpu@ == self@.cpu,
    {
        &self.cpu
    }

    /// The memory.
    pub fn memory(&self) -> (memory: &Memory)
        ensures
            memory@ == self@.memory,
    {
        &self.memory
    }

    /// The display.
    pub fn display(&self) -> (display: &Display)
        ensures
            display@ == self@.display,
    {
        &self.display
    }

    /// The register that receives the next key, while the machine waits for
    /// one.
    pub fn waiting(&self) -> (waiting: Option<u8>)
        ensures
            waiting == self@.waiting,
            self@.valid(),
    {
        proof {
            self.cpu.lemma_valid();
            self.memory.lemma_len();
            self.display.lemma_shape();
        }
        self.waiting.get()
    }

    /// One tick of the external clock: each timer above zero goes down by
    /// one, whether the machine runs or waits for a key.
    pub fn tick(&mut self)
        ensures
            final(self)@ == old(self)@.ticked(),
            final(self)@.valid(),
    {
        self.cpu.tick();
        proof {
            use_type_invariant(&self.waiting);
            self.cpu.lemma_valid();
            self.memory.lemma_len();
            self.display.lemma_shape();
        }
    }

    /// Fetches the instruction word at the program counter and moves the
    /// counter past it.
    pub fn next_instruction(&mut self) -> (word: u16)
        ensures
            word == word_at(old(self)@.memory, old(self)@.cpu.pc),
            final(self)@ == old(self)@.fetched(),
            final(self)@.valid(),
    {
        let word = self.memory.fetch(self.cpu.pc());
        self.cpu.skip();
        proof {
            use_type_invariant(&self.waiting);
            self.cpu.lemma_valid();
            self.memory.lemma_len();
            self.display.lemma_shape();
        }
        word
    }
}

/// Only the instructions of class `C` look at the random byte.
pub proof fn lemma_random_matters_to_class_c_only(
    state: ChipState,
    word: u16,
    keys: Seq<bool>,
    first: u8,
    second: u8,
)
    requires
        field_class(word) != 0xC,
    ensures
        state.execute(word, keys, first) == state.execute(word, keys, second),
{
    crate::cpu::lemma_random_matters_to_class_c_only(state.cpu, word, keys, first, second);
}

impl Chip {
    /// The address `offset` bytes after `I`, modulo the size of memory.
    fn address(&self, offset: u8) -> (addr: u16)
        ensures
            addr == (self@.cpu.i + offset) % 4096,
    {
        ((self.cpu.index() as u32 + offset as u32) % 4096) as u16
    }

    /// The `n` sprite rows that start at `I`.
    fn sprite_rows(&self, n: u8) -> (rows: Vec<u8>)
        ensures
            rows@ == self@.sprite(n),
    {
        let mut rows: Vec<u8> = Vec::new();
        let mut k: u8 = 0;
        while k < n
            invariant
                k <= n,
                rows@.len() == k,
                forall|j: int| 0 <= j < k ==> rows@[j] == byte_at(self@.memory, self@.cpu.i + j),
            decreases n - k,
        {
            let byte: u8 = self.memory.read(self.address(k));
            rows.push(byte);
            k += 1;
        }
        assert(rows@ =~= self@.sprite(n));
        rows
    }

    /// Stores `V0..=Vx` from `I` on.
    fn store_registers(&mut self, x: u8)
        requires
            x < 16,
        ensures
            final(self)@ == (ChipState {
                memory: old(self)@.registers_stored(x),
                ..old(self)@
            }),
    {
        proof {
            self.memory.lemma_len();
            self.cpu.lemma_valid();
        }
        let mut k: u8 = 0;
        while k <= x
            invariant
                k <= x + 1 <= 16,
                self@.cpu == old(self)@.cpu,
                self@.display == old(self)@.display,
                self@.waiting == old(self)@.waiting,
                self@.cpu.v.len() == 16,
                self@.memory.len() == 4096,
                old(self)@.memory.len() == 4096,
                forall|a: int|
                    0 <= a < 4096 ==> #[trigger] self@.memory[a] == (if (a - self@.cpu.i) % 4096
                        < k {
                        self@.cpu.v[(a - self@.cpu.i) % 4096]
                    } else {
                        old(self)@.memory[a]
                    }),
            decreases x + 1 - k,
        {
            let addr: u16 = self.address(k);
            let value: u8 = self.cpu.register(k);
            self.memory.write(addr, value);
            k += 1;
        }
        assert(self@.memory =~= old(self)@.registers_stored(x));
    }

    /// Loads `V0..=Vx` from `I` on.
    fn load_registers(&mut self, x: u8)
        requires
            x < 16,
        ensures
            final(self)@ == (ChipState {
                cpu: CpuState { v: old(self)@.registers_loaded(x), ..old(self)@.cpu },
                ..old(self)@
            }),
    {
        proof {
            self.cpu.lemma_valid();
        }
        let mut k: u8 = 0;
        while k <= x
            invariant
                k <= x + 1 <= 16,
                self@.memory == old(self)@.memory,
                self@.display == old(self)@.display,
                self@.waiting == old(self)@.waiting,
                self@.cpu == (CpuState { v: self@.cpu.v, ..old(self)@.cpu }),
                self@.cpu.v.len() == 16,
                old(self)@.cpu.v.len() == 16,
                forall|j: int|
                    0 <= j < 16 ==> #[trigger] self@.cpu.v[j] == (if j < k {
                        byte_at(self@.memory, self@.cpu.i + j)
                    } else {
                        old(self)@.cpu.v[j]
                    }),
            decreases x + 1 - k,
        {
            let byte: u8 = self.memory.read(self.address(k));
            self.cpu.set_register(k, byte);
            k += 1;
        }
        assert(self@.cpu.v =~= old(self)@.registers_loaded(x));
    }

    /// Carries out an instruction that works on memory, the display or the
    /// key-wait state.
    fn run_machine(&mut self, instruction: Instruction) -> (effect: Effect)
        requires
            instruction.valid(),
        ensures
            (final(self)@, effect) == old(self)@.run_machine(instruction),
    {
        match instruction {
            Instruction::ClearScreen => {
                self.display.clear();
                Effect::Nothing
            },
            Instruction::Draw { x, y, n } => {
                let rows = self.sprite_rows(n);
                let left: u8 = self.cpu.register(x);
                let top: u8 = self.cpu.register(y);
                let collision = self.display.draw(rows.as_slice(), left, top);
                self.cpu.set_register(
                    FLAG,
                    if collision {
                        1
                    } else {
                        0
                    },
                );
                Effect::Present
            },
            Instruction::WaitKey { x } => {
                self.waiting = KeyWait::on(x);
                Effect::Nothing
            },
            Instruction::StoreBcd { x } => {
                let value: u8 = self.cpu.register(x);
                let hundreds: u16 = self.address(0);
                let tens: u16 = self.address(1);
                let ones: u16 = self.address(2);
                self.memory.write(hundreds, value / 100);
                self.memory.write(tens, (value / 10) % 10);
                self.memory.write(ones, value % 10);
                Effect::Nothing
            },
            Instruction::StoreRegs { x } => {
                self.store_registers(x);
                Effect::Nothing
            },
            Instruction::LoadRegs { x } => {
                self.load_registers(x);
                Effect::Nothing
            },
            _ => Effect::Nothing,
        }
    }

    /// Executes the instruction word `instruction`, with `random` as the byte
    /// that a random-number instruction receives. On failure the machine is
    /// as it was.
    pub fn execute_with(&mut self, instruction: u16, keys: &Keys, random: u8) -> (outcome: Result<
        Effect,
        ChipError,
    >)
        ensures
            outcome_is(
                old(self)@,
                final(self)@,
                outcome,
                old(self)@.execute(instruction, keys@, random),
            ),
            final(self)@.valid(),
    {
        let outcome = match self.cpu.table(instruction, keys, random) {
            Err(error) => Err(error),
            Ok(None) => Ok(Effect::Nothing),
            Ok(Some(rest)) => Ok(self.run_machine(rest)),
        };
        proof {
            use_type_invariant(&self.waiting);
            self.cpu.lemma_valid();
            self.memory.lemma_len();
            self.display.lemma_shape();
        }
        outcome
    }

    /// Executes the instruction word `instruction`. A random-number
    /// instruction receives a byte drawn from the thread's random generator;
    /// every other instruction is executed without a draw, and its outcome is
    /// the same for any byte.
    pub fn execute(&mut self, instruction: u16, keys: &Keys) -> (outcome: Result<
        Effect,
        ChipError,
    >)
        ensures
            exists|random: u8|
                outcome_is(
                    old(self)@,
                    final(self)@,
                    outcome,
                    #[trigger] old(self)@.execute(instruction, keys@, random),
                ),
            field_class(instruction) != 0xC ==> forall|random: u8|
                outcome_is(
                    old(self)@,
                    final(self)@,
                    outcome,
                    #[trigger] old(self)@.execute(instruction, keys@, random),
                ),
            final(self)@.valid(),
    {
        let class: u8 = operand_class(instruction);
        let random: u8 = if class == 0xC {
            random_byte()
        } else {
            0
        };
        let outcome = self.execute_with(instruction, keys, random);
        proof {
            if class != 0xC {
                assert forall|other: u8|
                    outcome_is(
                        old(self)@,
                        self@,
                        outcome,
                        #[trigger] old(self)@.execute(instruction, keys@, other),
                    ) by {
                    lemma_random_matters_to_class_c_only(
                        old(self)@,
                        instruction,
                        keys@,
                        random,
                        other,
                    );
                }
            }
        }
        outcome
    }

    /// One step of the machine, with `random` as the byte that a
    /// random-number instruction receives: a look at the keys while the
    /// machine waits for one, else fetch and execute. On failure the machine
    /// is as it was before the step.
    pub fn step_with(&mut self, keys: &Keys, random: u8) -> (outcome: Result<Effect, ChipError>)
        ensures
            outcome_is(old(self)@, final(self)@, outcome, old(self)@.step(keys@, random)),
            final(self)@.valid(),
    {
        let outcome = match self.waiting.get() {
            Some(x) => {
                match keys.first_pressed() {
                    Some(key) => {
                        self.cpu.set_register(x, key);
                        self.waiting = KeyWait::idle();
                    },
                    None => {},
                }
                Ok(Effect::Nothing)
            },
            None => {
                let pc: u16 = self.cpu.pc();
                let word: u16 = self.next_instruction();
                match self.execute_with(word, keys, random) {
                    Ok(effect) => Ok(effect),
                    Err(error) => {
                        self.cpu.jump(pc);
                        match error {
                            ChipError::Decode { word, .. } => Err(ChipError::Decode { word, pc }),
                            other => Err(other),
                        }
                    },
                }
            },
        };
        proof {
            use_type_invariant(&self.waiting);
            self.cpu.lemma_valid();
            self.memory.lemma_len();
            self.display.lemma_shape();
        }
        outcome
    }

    /// One step of the machine. A random-number instruction receives a byte
    /// drawn from the thread's random generator; any other step is taken
    /// without a draw, and its outcome is the same for any byte.
    pub fn step(&mut self, keys: &Keys) -> (outcome: Result<Effect, ChipError>)
        ensures
            exists|random: u8|
                outcome_is(
                    old(self)@,
                    final(self)@,
                    outcome,
                    #[trigger] old(self)@.step(keys@, random),
                ),
            old(self)@.waiting is Some || field_class(
                word_at(old(self)@.memory, old(self)@.cpu.pc),
            ) != 0xC ==> forall|random: u8|
                outcome_is(
                    old(self)@,
                    final(self)@,
                    outcome,
                    #[trigger] old(self)@.step(keys@, random),
                ),
            final(self)@.valid(),
    {
        let draws: bool = self.waiting.get().is_none() && operand_class(
            self.memory.fetch(self.cpu.pc()),
        ) == 0xC;
        let random: u8 = if draws {
            random_byte()
        } else {
            0
        };
        let outcome = self.step_with(keys, random);
        proof {
            if !draws {
                assert forall|other: u8|
                    outcome_is(
                        old(self)@,
                        self@,
                        outcome,
                        #[trigger] old(self)@.step(keys@, other),
                    ) by {
                    if old(self)@.waiting is None {
                        lemma_random_matters_to_class_c_only(
                            old(self)@.fetched(),
                            word_at(old(self)@.memory, old(self)@.cpu.pc),
                            keys@,
                            random,
                            other,
                        );
                    }
                }
            }
        }
        outcome
    }
}

/// A step or an instruction that succeeds leaves a well-shaped machine
/// well-shaped.
pub proof fn lemma_stays_valid(state: ChipState, word: u16, keys: Seq<bool>, random: u8)
    requires
        state.valid(),
    ensures
        (state.execute(word, keys, random) matches Ok((after, _)) ==> after.valid()),
        (state.step(keys, random) matches Ok((after, _)) ==> after.valid()),
        state.ticked().valid(),
{
    lemma_decoded_valid(word);
    lemma_decoded_valid(word_at(state.memory, state.cpu.pc));
}

/// What each part of the machine can be changed by. Only `00E0` and `Dxyn`
/// touch the display, only `Fx33` and `Fx55` touch memory, only `Fx15` and
/// `Fx18` touch a timer, only `Fx0A` makes the machine wait, and only `Dxyn`
/// asks for the display to be presented.
pub proof fn lemma_who_changes_what(state: ChipState, word: u16, keys: Seq<bool>, random: u8)
    ensures
        state.execute(word, keys, random) matches Ok((after, effect)) ==> {
            let instruction = decode_word(word)->Some_0;
            &&& decode_word(word) is Some
            &&& after.display != state.display ==> instruction is ClearScreen
                || instruction is Draw
            &&& after.memory != state.memory ==> instruction is StoreBcd
                || instruction is StoreRegs
            &&& after.cpu.delay_timer != state.cpu.delay_timer ==> instruction is SetDelay
            &&& after.cpu.sound_timer != state.cpu.sound_timer ==> instruction is SetSound
            &&& after.waiting != state.waiting ==> instruction is WaitKey
            &&& effect == Effect::Present <==> instruction is Draw
        },
{
}

/// Addition with carry: executing `8xy4` with `Vx = a` and `Vy = b` leaves
/// `(a + b) mod 256` in `Vx` and sets `VF` to 1 if `a + b > 255`, else to 0.
/// With `x = F` the flag is written last and takes the place of the sum, so
/// that register is left out.
pub proof fn lemma_add_carries(state: ChipState, x: u8, y: u8, keys: Seq<bool>, random: u8)
    requires
        state.valid(),
        x < 15,
        y < 16,
    ensures
        state.execute(encode(Instruction::AddReg { x, y }), keys, random) matches Ok((after, _))
            && after.cpu.v[x as int] == (state.cpu.v[x as int] + state.cpu.v[y as int]) % 256
            && after.cpu.v[15] == (if state.cpu.v[x as int] + state.cpu.v[y as int] > 255 {
            1u8
        } else {
            0u8
        }),
{
    lemma_decode_encode(Instruction::AddReg { x, y });
}

/// Subtraction with borrow: executing `8xy5` with `Vx = a` and `Vy = b`
/// leaves `(a - b) mod 256` in `Vx` and sets `VF` to 1 if `a >= b`, else to
/// 0. With `x = F` the flag is written last and takes the place of the
/// difference, so that register is left out.
pub proof fn lemma_sub_borrows(state: ChipState, x: u8, y: u8, keys: Seq<bool>, random: u8)
    requires
        state.valid(),
        x < 15,
        y < 16,
    ensures
        state.execute(encode(Instruction::SubReg { x, y }), keys, random) matches Ok((after, _))
            && after.cpu.v[x as int] == (state.cpu.v[x as int] - state.cpu.v[y as int]) % 256
            && after.cpu.v[15] == (if state.cpu.v[x as int] >= state.cpu.v[y as int] {
            1u8
        } else {
            0u8
        }),
{
    lemma_decode_encode(Instruction::SubReg { x, y });
}

/// After `00E0` no pixel of the display is lit.
pub proof fn lemma_clear_leaves_no_pixel(state: ChipState, keys: Seq<bool>, random: u8)
    ensures
        state.execute(0x00E0, keys, random) matches Ok((after, _)) && lit_in_grid(
            after.display,
            32,
        ) == 0 && forall|row: int, col: int|
            0 <= row < 32 && 0 <= col < 64 ==> !after.display[row][col],
{
    lemma_dark_grid_counts_none(blank_grid(), 32);
}

/// Storing `V0..=Vx` with `Fx55` and loading them back with `Fx65` under
/// the same `x` and `I` restores them, whatever happened to the machine in
/// between, as long as the bytes at `I..=I+x` are still those stored.
pub proof fn lemma_store_then_load_restores(
    state: ChipState,
    later: ChipState,
    x: u8,
    keys: Seq<bool>,
    random: u8,
)
    requires
        state.valid(),
        later.valid(),
        x < 16,
        later.cpu.i == state.cpu.i,
        forall|k: int|
            0 <= k <= x ==> #[trigger] later.at_index(k) == (ChipState {
                memory: state.registers_stored(x),
                ..state
            }).at_index(k),
    ensures
        state.execute(encode(Instruction::StoreRegs { x }), keys, random) matches Ok((stored, _))
            && stored.memory == state.registers_stored(x) && stored.cpu == state.cpu,
        later.execute(encode(Instruction::LoadRegs { x }), keys, random) matches Ok((loaded, _))
            && forall|k: int| 0 <= k <= x ==> loaded.cpu.v[k] == state.cpu.v[k],
{
    lemma_decode_encode(Instruction::StoreRegs { x });
    lemma_decode_encode(Instruction::LoadRegs { x });
    let stored = ChipState { memory: state.registers_stored(x), ..state };
    assert forall|k: int| 0 <= k <= x implies later.registers_loaded(x)[k] == state.cpu.v[k] by {
        let a = (state.cpu.i + k) % 4096;
        assert((a - state.cpu.i) % 4096 == k);
        assert(stored.at_index(k) == state.cpu.v[k]);
        assert(later.at_index(k) == stored.at_index(k));
    }
}

/// `Fx0A` puts the machine into the key-wait state and changes nothing
/// else.
pub proof fn lemma_key_wait_begins(state: ChipState, x: u8, keys: Seq<bool>, random: u8)
    requires
        x < 16,
    ensures
        state.execute(encode(Instruction::WaitKey { x }), keys, random) == Ok::<
            (ChipState, Effect),
            ChipError,
        >((ChipState { waiting: Some(x), ..state }, Effect::Nothing)),
{
    lemma_decode_encode(Instruction::WaitKey { x });
}

/// A machine that waits for a key for `Vx` resumes at the first step that
/// sees a key held: the code of a held key goes to `Vx`, and no other
/// register, nor the program counter, the index register, the stack, the
/// timers, memory or the display changes. A step that sees no key held
/// changes nothing at all.
pub proof fn lemma_key_wait_resumes(state: ChipState, x: u8, keys: Seq<bool>, random: u8)
    requires
        state.waiting == Some(x),
    ensures
        (exists|key: int| key_down(keys, key)) ==> (state.step(keys, random) matches Ok(
            (after, effect),
        ) && effect == Effect::Nothing && exists|key: u8|
            key_down(keys, key as int) && after == (ChipState {
                cpu: #[trigger] state.cpu.set_register(x, key),
                waiting: None,
                ..state
            })),
        (forall|key: int| !key_down(keys, key)) ==> state.step(keys, random) == Ok::<
            (ChipState, Effect),
            ChipError,
        >((state, Effect::Nothing)),
{
    lemma_lowest_down(keys, 0);
}

} // verus!
