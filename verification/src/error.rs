//! Error taxonomy of the workflow: resolution errors (a mailbox name fails to
//! resolve), conversion errors (a message cannot be turned into a sendable
//! form), collaborator errors (the mail store, the mail transport or the
//! output sink reports failure) and interaction errors.

use vstd::prelude::*;

verus! {

/// Everything a workflow operation can fail with.
#[derive(Clone, Copy, PartialEq, Eq, Structural, Debug)]
pub enum Error {
    /// No mailbox name was supplied and no default applies.
    NoTargetMbox,
    /// A message cannot be made sendable: its sender list is empty.
    MissingSender,
    /// A message cannot be made sendable: its recipient list is empty.
    MissingRecipient,
    /// Raw message text could not be parsed: a header line has no colon.
    MalformedMessage,
    /// The mail-store session reported failure.
    StoreFailure,
    /// The mail-transport session refused or failed a delivery.
    TransportFailure,
    /// The output sink could not present a value.
    OutputFailure,
    /// The interactive editing step failed before any choice was made.
    EditFailure,
    /// The interaction source was exhausted before a terminal choice.
    UiClosed,
}

impl Error {
    /// A short human-readable description, for the surrounding program.
    pub fn describe(&self) -> &'static str {
        match self {
            Error::NoTargetMbox => "no target mailbox could be resolved",
            Error::MissingSender => "message has no sender header",
            Error::MissingRecipient => "message has no recipient header",
            Error::MalformedMessage => "raw message text is malformed",
            Error::StoreFailure => "the mail store reported a failure",
            Error::TransportFailure => "the mail transport reported a failure",
            Error::OutputFailure => "the output sink reported a failure",
            Error::EditFailure => "the message could not be edited",
            Error::UiClosed => "the interaction ended before a terminal choice",
        }
    }
}

} // verus!
