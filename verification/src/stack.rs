use vstd::prelude::*;

verus! {

/// The call stack: return addresses, most recent last. It grows without bound.
pub struct Stack {
    buffer: Vec<u16>,
}

impl View for Stack {
    type V = Seq<u16>;

    closed spec fn view(&self) -> Seq<u16> {
        self.buffer@
    }
}

impl Stack {
    pub fn new() -> (stack: Self)
        ensures
            stack@ == Seq::<u16>::empty(),
    {
        Self { buffer: Vec::new() }
    }

    pub fn push(&mut self, value: u16)
        ensures
            final(self)@ == old(self)@.push(value),
    {
        self.buffer.push(value);
    }

    /// Takes the most recent address off the stack; `None` exactly when the
    /// stack is empty, and then nothing changes.
    pub fn pop(&mut self) -> (top: Option<u16>)
        ensures
            old(self)@.len() == 0 ==> top.is_none() && final(self)@ == old(self)@,
            old(self)@.len() > 0 ==> top == Some(old(self)@.last()) && final(self)@
                == old(self)@.drop_last(),
    {
        self.buffer.pop()
    }
}

} // verus!
