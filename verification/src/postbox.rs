//! A second, minimal actor: a box that holds one message.
use vstd::prelude::*;

verus! {

/// An actor that keeps the last message it was given.
#[derive(Debug)]
pub struct Postbox {
    message: u8,
}

impl View for Postbox {
    type V = u8;

    closed spec fn view(&self) -> u8 {
        self.message
    }
}

impl Default for Postbox {
    fn default() -> (postbox: Postbox)
        ensures
            postbox@ == 0,
    {
        Postbox { message: 0 }
    }
}

impl Postbox {
    /// The postbox as it was stored, holding `message`.
    pub fn with_message(message: u8) -> (postbox: Postbox)
        ensures
            postbox@ == message,
    {
        Postbox { message }
    }

    /// The message the postbox holds.
    pub fn get_message(&self) -> (message: u8)
        ensures
            message == self@,
    {
        self.message
    }

    /// Replaces the message.
    pub fn set_message(&mut self, message: u8)
        ensures
            final(self)@ == message,
    {
        self.message = message;
    }
}

} // verus!
