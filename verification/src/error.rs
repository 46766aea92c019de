//! The bot's single error type: a human-readable message.

use vstd::prelude::*;

verus! {

#[derive(Debug)]
pub enum BotError {
    Message(String),
}

impl View for BotError {
    type V = Seq<char>;

    open spec fn view(&self) -> Seq<char> {
        match self {
            BotError::Message(m) => m@,
        }
    }
}

impl BotError {
    /// The error's message (what `Display` prints).
    pub fn message(&self) -> (s: String)
        ensures
            s@ == self@,
    {
        match self {
            BotError::Message(m) => m.clone(),
        }
    }
}

pub fn bot_err(message: String) -> (e: BotError)
    ensures
        e@ == message@,
{
    BotError::Message(message)
}

/// `res` is `Ok` exactly when no failure is expected, and otherwise fails with
/// the expected message.
pub open spec fn fails_as<T>(res: Result<T, BotError>, expected: Option<Seq<char>>) -> bool {
    match res {
        Ok(_) => expected is None,
        Err(e) => expected == Some(e@),
    }
}

} // verus!
