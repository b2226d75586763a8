//! The interconnect: the memory and the peripherals the interpreter drives.

use vstd::prelude::*;

use crate::graphics::Graphics;
use crate::graphics::TestDisplay;
use crate::input::Input;
use crate::input::TestKeyboard;
use crate::memory::Memory;
use crate::memory::spec_initial_memory;

verus! {

/// Access to memory and peripherals.
pub struct Interconnect<T, U> where T: Input, U: Graphics {
    /// Main memory.
    pub memory: Memory,
    /// Graphics.
    pub graphics: U,
    /// Input.
    pub input: T,
}

impl Interconnect<TestKeyboard, TestDisplay> {
    /// An interconnect around a plain display and keyboard, with the program
    /// image loaded; for driving the interpreter without a host backend.
    pub fn new_test(rom: Vec<u8>) -> (ic: Interconnect<TestKeyboard, TestDisplay>)
        requires
            rom@.len() + 512 <= 4096,
        ensures
            spec_initial_memory(ic.memory@, rom@),
            ic.graphics.pixels().len() == 2048,
            forall|c: int| 0 <= c < 2048 ==> !ic.graphics.pixels()[c],
            ic.input.spec_keys().len() == 16,
            forall|i: int| 0 <= i < 16 ==> !ic.input.spec_keys()[i],
            !ic.input.spec_close(),
    {
        let memory = Memory::new(rom);
        let graphics = TestDisplay::new_test();
        let input = TestKeyboard::new_test();
        Interconnect { memory, graphics, input }
    }
}

} // verus!
