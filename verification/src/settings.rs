use vstd::prelude::*;

verus! {

/// Behaviours on which historical interpreters disagree. Chosen once, when
/// the machine is built.
#[derive(Clone, Copy, Debug)]
pub struct Settings {
    /// Shifts first copy VY into VX.
    pub assign_shift: bool,
    /// Block store and load advance the index register past the block.
    pub load_store_increment: bool,
    /// Adding to the index register reports in VF whether it left the
    /// 12-bit address range.
    pub add_to_index_overflow: bool,
    /// Jump-with-offset adds VX instead of V0.
    pub jump_with_offset_add: bool,
}

impl Default for Settings {
    fn default() -> (settings: Self)
        ensures
            !settings.assign_shift,
            !settings.load_store_increment,
            settings.add_to_index_overflow,
            !settings.jump_with_offset_add,
    {
        Self {
            assign_shift: false,
            load_store_increment: false,
            add_to_index_overflow: true,
            jump_with_offset_add: false,
        }
    }
}

} // verus!
