//! The keyboard input handler.
use super::clickable::{ElementState, Event};
use vstd::prelude::*;

verus! {

/// Receives the keyboard input of an element. `inputs` is the input it has
/// received so far, in order, which each call extends by one.
pub trait KeyboardHandler {
    spec fn inputs(&self) -> Seq<(ElementState, u32)>;

    fn handle_keyboard_input(&mut self, state: ElementState, key_code: u32)
        ensures
            final(self).inputs() == old(self).inputs().push((state, key_code)),
    ;
}

/// A keyboard handler that keeps every input it receives.
pub struct KeyLog {
    pub entries: Vec<(ElementState, u32)>,
}

impl KeyLog {
    /// A log without entries.
    pub fn new() -> (r: KeyLog)
        ensures
            r.entries@ == Seq::<(ElementState, u32)>::empty(),
    {
        KeyLog { entries: Vec::new() }
    }
}

impl KeyboardHandler for KeyLog {
    open spec fn inputs(&self) -> Seq<(ElementState, u32)> {
        self.entries@
    }

    fn handle_keyboard_input(&mut self, state: ElementState, key_code: u32) {
        self.entries.push((state, key_code));
    }
}

/// A handler that hands keyboard input events to `handler` and ignores the
/// others.
pub struct KeyboardInputHandler<H> {
    handler: H,
}

impl<H> KeyboardInputHandler<H> {
    pub closed spec fn handler(self) -> H {
        self.handler
    }

    /// The handler that `new(handler)` builds.
    pub closed spec fn spec_new(handler: H) -> Self {
        KeyboardInputHandler { handler }
    }

    pub fn new(handler: H) -> (r: Self)
        ensures
            r == Self::spec_new(handler),
            r.handler() == handler,
    {
        Self { handler }
    }
}

impl<H> KeyboardInputHandler<H> {
    /// The handler that receives the keyboard input.
    pub fn inner(&self) -> (r: &H)
        ensures
            *r == self.handler(),
    {
        &self.handler
    }
}

impl<H: KeyboardHandler> KeyboardInputHandler<H> {
    /// Hands a keyboard input event to the handler, once; any other event
    /// leaves the handler untouched.
    pub fn handle(&mut self, event: Event)
        ensures
            match event {
                Event::KeyboardInput { state, key_code } => final(self).handler().inputs()
                    == old(self).handler().inputs().push((state, key_code)),
                _ => *final(self) == *old(self),
            },
    {
        if let Event::KeyboardInput { state, key_code } = event {
            self.handler.handle_keyboard_input(state, key_code);
        }
    }
}

} // verus!
