use vstd::prelude::*;

verus! {

/// The failures that stop the machine. None of them is recoverable: each
/// reports a program that does not fit the machine it was given to.
#[derive(Clone, Copy, Debug, PartialEq, Eq, Structural)]
pub enum ChipError {
    /// `word` matches no instruction pattern; `pc` is the program counter at
    /// the time the word was refused.
    Decode { word: u16, pc: u16 },
    /// A return was executed while the call stack was empty.
    StackUnderflow,
    /// The program image is longer than the space from the program offset to
    /// the end of memory.
    LoadOverflow,
}

} // verus!
