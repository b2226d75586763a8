//! The input surface: sixteen logical keys, a wait-for-key entry point, and
//! a close-request signal, fed by an external event source.

use vstd::prelude::*;

verus! {

/// The input device the interpreter reads keys from.
pub trait Input: Sized {
    /// The abstract key state: one boolean per key, sixteen keys.
    /// An implementation that does not model its keys leaves the default,
    /// of which nothing useful holds.
    open spec fn spec_keys(&self) -> Seq<bool> {
        Seq::empty()
    }

    /// Whether the host asked to close the machine.
    open spec fn spec_close(&self) -> bool {
        false
    }

    /// Let the event source refresh the key state and the close signal.
    fn handle_inputs(&mut self)
        ensures
            final(self).spec_keys().len() == 16,
    ;

    /// Suspend until some key transitions to pressed, and return that key.
    fn wait_input(&mut self) -> (key: u8)
        ensures
            key < 16,
            final(self).spec_keys().len() == 16,
    ;

    /// Whether `key` is currently pressed.
    fn is_key_down(&self, key: u8) -> (down: bool)
        requires
            key < 16,
            self.spec_keys().len() == 16,
        ensures
            down == self.spec_keys()[key as int],
    ;

    /// Whether the host asked to close the machine.
    fn close_requested(&self) -> (close: bool)
        ensures
            close == self.spec_close(),
    ;
}

/// A keyboard with directly settable state and no attached event source.
pub struct TestKeyboard {
    state: [bool; 16],
    close_requested: bool,
}

impl TestKeyboard {
    /// A keyboard with no key pressed and no close request.
    pub fn new_test() -> (k: TestKeyboard)
        ensures
            k.spec_keys().len() == 16,
            forall|i: int| 0 <= i < 16 ==> !k.spec_keys()[i],
            !k.spec_close(),
    {
        TestKeyboard { state: [false;16], close_requested: false }
    }

    /// Mark a key as pressed.
    pub fn press_key(&mut self, key: u8)
        requires
            key < 16,
        ensures
            final(self).spec_keys() == old(self).spec_keys().update(key as int, true),
            final(self).spec_close() == old(self).spec_close(),
    {
        self.state[key as usize] = true;
    }

    /// Ask the machine to close.
    pub fn close(&mut self)
        ensures
            final(self).spec_keys() == old(self).spec_keys(),
            final(self).spec_close(),
    {
        self.close_requested = true;
    }
}

impl Input for TestKeyboard {
    closed spec fn spec_keys(&self) -> Seq<bool> {
        self.state@
    }

    closed spec fn spec_close(&self) -> bool {
        self.close_requested
    }

    /// There is no event source to poll; the state changes only through
    /// `press_key` and `close`.
    fn handle_inputs(&mut self) {
    }

    /// There is no event source to wait on; key 0 is reported at once.
    fn wait_input(&mut self) -> (key: u8) {
        0
    }

    fn is_key_down(&self, key: u8) -> (down: bool) {
        self.state[key as usize]
    }

    fn close_requested(&self) -> (close: bool) {
        self.close_requested
    }
}

} // verus!
