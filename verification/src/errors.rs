//! Errors of the binding, and the queue of diagnostics that the rule compiler
//! fills while it reads rule text.

use std::collections::VecDeque;
use vstd::prelude::*;
use vstd::std_specs::convert::FromSpecImpl;
use vstd::string::*;

use crate::text::{decimal, is_text, push_decimal, read_text, text_of};

verus! {

/// Everything that can go wrong between the caller and the native engine.
#[derive(Debug)]
pub enum Error {
    /// Rule text was offered after the rules had been compiled.
    AlreadyCompiled,
    /// Reserved for a failure reported by the match callback.
    CallbackError,
    /// Rule text that cannot be handed to the engine as a C string.
    InvalidRuleText,
    /// The file at this path could not be opened.
    InvalidFile(String),
    /// The engine's global initialisation returned this status.
    EngineInitError(i32),
    /// Creating the rule compiler returned this status.
    CompilerCreateError(i32),
    /// Any other nonzero status of the engine.
    UnknownEngineError(i32),
    /// The diagnostics that the compiler queued while it rejected rule text.
    Multiple(Vec<String>),
}

/// An `Error` with its texts as sequences of characters.
pub enum ErrorView {
    AlreadyCompiled,
    CallbackError,
    InvalidRuleText,
    InvalidFile(Seq<char>),
    EngineInitError(i32),
    CompilerCreateError(i32),
    UnknownEngineError(i32),
    Multiple(Seq<Seq<char>>),
}

/// The texts of a sequence of strings.
pub open spec fn texts(strings: Seq<String>) -> Seq<Seq<char>> {
    strings.map_values(|s: String| s@)
}

impl View for Error {
    type V = ErrorView;

    open spec fn view(&self) -> ErrorView {
        match self {
            Error::AlreadyCompiled => ErrorView::AlreadyCompiled,
            Error::CallbackError => ErrorView::CallbackError,
            Error::InvalidRuleText => ErrorView::InvalidRuleText,
            Error::InvalidFile(path) => ErrorView::InvalidFile(path@),
            Error::EngineInitError(code) => ErrorView::EngineInitError(*code),
            Error::CompilerCreateError(code) => ErrorView::CompilerCreateError(*code),
            Error::UnknownEngineError(code) => ErrorView::UnknownEngineError(*code),
            Error::Multiple(messages) => ErrorView::Multiple(texts(messages@)),
        }
    }
}

impl From<i32> for Error {
    fn from(error: i32) -> (e: Error) {
        Error::UnknownEngineError(error)
    }
}

impl FromSpecImpl<i32> for Error {
    open spec fn obeys_from_spec() -> bool {
        true
    }

    open spec fn from_spec(error: i32) -> Error {
        Error::UnknownEngineError(error)
    }
}

impl Error {
    /// Reads a native status: zero is success, anything else is the engine's
    /// own error code.
    pub fn from_code(code: i32) -> (r: Result<(), Error>)
        ensures
            code == 0 ==> r == Ok::<(), Error>(()),
            code != 0 ==> r == Err::<(), Error>(Error::UnknownEngineError(code)),
    {
        if code == 0 {
            Ok(())
        } else {
            Err(Error::from(code))
        }
    }
}

/// The text under which a diagnostic is queued: `Line `, the line number in
/// decimal, a colon and a space, then the compiler's message.
pub open spec fn diagnostic(line_number: int, message: Seq<char>) -> Seq<char> {
    seq!['L', 'i', 'n', 'e', ' '] + decimal(line_number) + seq![':', ' '] + message
}

/// What is kept of a message that the compiler wrote as a C string: its text,
/// or nothing where the bytes are not text.
pub open spec fn message_text(message: Seq<u8>) -> Seq<char> {
    if is_text(message) {
        text_of(message)
    } else {
        Seq::empty()
    }
}

/// The compiler's diagnostic callback: appends one diagnostic to the queue.
/// The level and the file name are taken as the engine passes them and not
/// used.
pub fn error_callback(
    _level: i32,
    _file_name: &[u8],
    line_number: i32,
    message: &[u8],
    user_data: &mut VecDeque<String>,
)
    ensures
        final(user_data)@.len() == old(user_data)@.len() + 1,
        final(user_data)@.drop_last() == old(user_data)@,
        final(user_data)@.last()@ == diagnostic(line_number as int, message_text(message@)),
{
    let mut entry = String::new();
    proof {
        reveal_strlit("Line ");
        reveal_strlit(": ");
    }
    entry.append("Line ");
    push_decimal(&mut entry, line_number);
    entry.append(": ");
    match read_text(message) {
        Some(text) => {
            entry.append(text.as_str());
        },
        None => {},
    }
    assert(entry@ =~= diagnostic(line_number as int, message_text(message@)));
    user_data.push_back(entry);
    assert(user_data@.drop_last() =~= old(user_data)@);
}

/// Takes the oldest diagnostic off the queue.
pub fn get_last_error(queue: &mut VecDeque<String>) -> (message: Option<String>)
    ensures
        old(queue)@.len() == 0 ==> message is None && final(queue)@ == old(queue)@,
        old(queue)@.len() > 0 ==> message == Some(old(queue)@[0]) && final(queue)@ == old(queue)@.drop_first(),
{
    queue.pop_front()
}

/// How many diagnostics are taken for a reported count of `count` errors when
/// `queued` are waiting: one for each reported error, as far as there are
/// that many, and none for a count that is not positive.
pub open spec fn taken(count: int, queued: nat) -> nat {
    if count <= 0 {
        0
    } else if count <= queued {
        count as nat
    } else {
        queued
    }
}

/// Takes the diagnostics that belong to a failed registration off the front of
/// the queue, oldest first: as many as errors were reported, or all that are
/// queued where those are fewer. What follows them stays in the queue.
pub fn take_errors(queue: &mut VecDeque<String>, count: i32) -> (messages: Vec<String>)
    ensures
        messages@ == old(queue)@.take(taken(count as int, old(queue)@.len()) as int),
        final(queue)@ == old(queue)@.skip(taken(count as int, old(queue)@.len()) as int),
{
    let mut messages: Vec<String> = Vec::new();
    let mut asked: i32 = 0;
    while asked < count && queue.len() > 0
        invariant
            0 <= asked,
            asked <= count || asked == 0,
            asked <= old(queue)@.len(),
            messages@ == old(queue)@.take(asked as int),
            queue@ == old(queue)@.skip(asked as int),
        decreases count - asked,
    {
        match get_last_error(queue) {
            Some(message) => {
                messages.push(message);
            },
            None => {},
        }
        asked = asked + 1;
        assert(messages@ =~= old(queue)@.take(asked as int));
        assert(queue@ =~= old(queue)@.skip(asked as int));
    }
    messages
}

} // verus!
