//! The holder of the one command that may await the user's consent.

use vstd::prelude::*;

verus! {

/// At most one proposed command that awaits the user's confirmation.
#[derive(Clone, Debug, PartialEq, Eq)]
pub struct PendingCommand {
    command: Option<String>,
}

impl View for PendingCommand {
    type V = Option<Seq<char>>;

    closed spec fn view(&self) -> Option<Seq<char>> {
        match self.command {
            Some(text) => Some(text@),
            None => None,
        }
    }
}

impl PendingCommand {
    /// A holder with nothing pending.
    pub fn new() -> (pending: PendingCommand)
        ensures
            pending@ is None,
    {
        PendingCommand { command: None }
    }

    /// Makes `text` the pending command, whatever was pending before.
    pub fn set(&mut self, text: String)
        ensures
            final(self)@ == Some(text@),
    {
        self.command = Some(text);
    }

    /// Hands out the pending command and leaves nothing pending.
    pub fn take(&mut self) -> (taken: Option<String>)
        ensures
            final(self)@ is None,
            match taken {
                Some(text) => old(self)@ == Some(text@),
                None => old(self)@ is None,
            },
    {
        self.command.take()
    }

    /// The pending command, which stays pending.
    pub fn peek(&self) -> (seen: Option<&String>)
        ensures
            match seen {
                Some(text) => self@ == Some(text@),
                None => self@ is None,
            },
    {
        self.command.as_ref()
    }

    /// Whether a command awaits confirmation.
    pub fn is_pending(&self) -> (pending: bool)
        ensures
            pending == (self@ is Some),
    {
        self.command.is_some()
    }
}

} // verus!
