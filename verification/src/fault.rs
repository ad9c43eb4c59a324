use vstd::prelude::*;

verus! {

/// Why the interpreter cannot go on. Both mean that the program is broken
/// or was written for another machine.
#[derive(Clone, Copy, Debug, PartialEq, Eq)]
pub enum Fault {
    /// The word encodes no instruction. `program_counter` is where the
    /// program counter stood once the word had been fetched.
    UnknownInstruction { instruction: u16, program_counter: u16 },
    /// A return with no call to return from.
    StackUnderflow,
}

} // verus!
