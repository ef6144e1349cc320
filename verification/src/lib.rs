//! Event-sourced album-lookup orchestration: a lookup state machine,
//! a keyed repository with a reverse artifact index, an ordered event
//! stream with consumer groups, and the deduplicating search interactor.

pub mod events;
pub mod files;
pub mod interactor;
pub mod lookup;
pub mod profile;
pub mod repository;
pub mod subscriber;
pub mod text;

use vstd::prelude::*;

verus! {

/// Error kinds surfaced by the lookup subsystem.
#[derive(Clone, Copy, Debug, PartialEq, Eq, Structural)]
pub enum Error {
    /// A key was absent where presence was required.
    NotFound,
    /// The broker or store was unreachable or broke protocol.
    Transport,
    /// A malformed envelope or stored record.
    Serialization,
    /// A malformed artifact name.
    InvalidIdentifier,
}

impl Error {
    /// A short diagnostic name for the error kind.
    pub fn name(&self) -> (r: &'static str)
        ensures
            r@ == match self {
                Error::NotFound => "not found"@,
                Error::Transport => "transport"@,
                Error::Serialization => "serialization"@,
                Error::InvalidIdentifier => "invalid identifier"@,
            },
    {
        match self {
            Error::NotFound => "not found",
            Error::Transport => "transport",
            Error::Serialization => "serialization",
            Error::InvalidIdentifier => "invalid identifier",
        }
    }
}

} // verus!
