//! What can go wrong in a node, and how it reads.

use crate::message::DecodeError;
use crate::render::{decimal, push_decimal};
use vstd::prelude::*;
use vstd::string::StringExecFns;

verus! {

/// A failure of the node or of the program that runs it.
#[derive(Debug, PartialEq, Eq)]
pub enum Error {
    /// The node could not listen on its address.
    NetworkListeningError(String),
    /// The lock on the network was lost.
    NetworkLockError(String),
    /// The lock on the directory of peers was lost while reading it.
    ConnectionsFetchError(String),
    /// A peer could not be reached.
    NetworkConnectionError(String),
    /// Bytes that arrived are not a message.
    MalformedMessage(DecodeError),
    /// The lock on the directory of peers was lost while adding to it.
    AddPeerError(String),
    /// The logger could not be set up.
    LoggingError(String),
}

/// A failure as a mathematical value.
pub enum ErrorView {
    NetworkListeningError(Seq<char>),
    NetworkLockError(Seq<char>),
    ConnectionsFetchError(Seq<char>),
    NetworkConnectionError(Seq<char>),
    MalformedMessage(DecodeError),
    AddPeerError(Seq<char>),
    LoggingError(Seq<char>),
}

impl View for Error {
    type V = ErrorView;

    open spec fn view(&self) -> ErrorView {
        match self {
            Error::NetworkListeningError(text) => ErrorView::NetworkListeningError(text@),
            Error::NetworkLockError(text) => ErrorView::NetworkLockError(text@),
            Error::ConnectionsFetchError(text) => ErrorView::ConnectionsFetchError(text@),
            Error::NetworkConnectionError(text) => ErrorView::NetworkConnectionError(text@),
            Error::MalformedMessage(error) => ErrorView::MalformedMessage(*error),
            Error::AddPeerError(text) => ErrorView::AddPeerError(text@),
            Error::LoggingError(text) => ErrorView::LoggingError(text@),
        }
    }
}

impl Clone for Error {
    fn clone(&self) -> (copy: Error)
        ensures
            copy@ == self@,
    {
        match self {
            Error::NetworkListeningError(text) => Error::NetworkListeningError(text.clone()),
            Error::NetworkLockError(text) => Error::NetworkLockError(text.clone()),
            Error::ConnectionsFetchError(text) => Error::ConnectionsFetchError(text.clone()),
            Error::NetworkConnectionError(text) => Error::NetworkConnectionError(text.clone()),
            Error::MalformedMessage(error) => Error::MalformedMessage(*error),
            Error::AddPeerError(text) => Error::AddPeerError(text.clone()),
            Error::LoggingError(text) => Error::LoggingError(text.clone()),
        }
    }
}

impl DecodeError {
    /// The line that says what is wrong with the bytes.
    pub open spec fn text(self) -> Seq<char> {
        match self {
            DecodeError::Truncated => "the bytes end before the message does"@,
            DecodeError::UnknownMessage(tag) => "unknown message tag "@ + decimal(tag as nat),
            DecodeError::UnknownAddressFamily(tag) => "unknown address family "@ + decimal(
                tag as nat,
            ),
            DecodeError::InvalidText => "the text is not UTF-8"@,
        }
    }

    /// The line that says what is wrong with the bytes.
    pub fn describe(&self) -> (line: String)
        ensures
            line@ == self.text(),
    {
        match self {
            DecodeError::Truncated => String::from_str("the bytes end before the message does"),
            DecodeError::UnknownMessage(tag) => {
                let mut line = String::from_str("unknown message tag ");
                push_decimal(&mut line, *tag);
                line
            },
            DecodeError::UnknownAddressFamily(tag) => {
                let mut line = String::from_str("unknown address family ");
                push_decimal(&mut line, *tag);
                line
            },
            DecodeError::InvalidText => String::from_str("the text is not UTF-8"),
        }
    }
}

impl ErrorView {
    /// The line that the failure prints as.
    pub open spec fn text(self) -> Seq<char> {
        match self {
            ErrorView::NetworkListeningError(text) => text,
            ErrorView::NetworkLockError(text) => text,
            ErrorView::ConnectionsFetchError(text) => text,
            ErrorView::NetworkConnectionError(text) => text,
            ErrorView::MalformedMessage(error) => error.text(),
            ErrorView::AddPeerError(text) => text,
            ErrorView::LoggingError(text) => text,
        }
    }
}

impl Error {
    /// The line that the failure prints as: the text it was made with, or
    /// the description of what is wrong with the bytes.
    pub fn message(&self) -> (line: String)
        ensures
            line@ == self@.text(),
    {
        match self {
            Error::NetworkListeningError(text) => text.clone(),
            Error::NetworkLockError(text) => text.clone(),
            Error::ConnectionsFetchError(text) => text.clone(),
            Error::NetworkConnectionError(text) => text.clone(),
            Error::MalformedMessage(error) => error.describe(),
            Error::AddPeerError(text) => text.clone(),
            Error::LoggingError(text) => text.clone(),
        }
    }
}

} // verus!
