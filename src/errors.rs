use vstd::prelude::*;

verus! {

/// The facets that an operation may find missing.
#[derive(Clone, Copy, Debug, PartialEq, Eq, Structural)]
pub enum FacetKind {
    NetObj,
    Visitor,
}

#[derive(Clone, Copy, Debug, PartialEq, Eq, Structural)]
pub enum PadlErrorCode {
    /// An entity lacks a facet that it must have.
    MissingComponent(FacetKind),
    /// A building type that the client cannot interpret.
    UnexpectedBuildingType,
    /// A creation time that is not a count of microseconds.
    InvalidTimestamp,
    /// A placement on a tile that is not buildable.
    NotBuildable,
    /// Every entity identifier is taken.
    EntityLimit,
    /// The player has as many prophets as they may have.
    ProphetLimit,
    /// The player has no prophet to send.
    NotEnoughUnits,
}

/// Where an error goes: to the player, or to the developer as a hard failure.
#[derive(Clone, Copy, Debug, PartialEq, Eq, Structural)]
pub enum ErrorChannel {
    UserFacing,
    Technical,
}

#[derive(Clone, Copy, Debug, PartialEq, Eq, Structural)]
pub struct PadlError {
    pub channel: ErrorChannel,
    pub code: PadlErrorCode,
}

pub type PadlResult<T> = Result<T, PadlError>;

/// The developer error with `code`.
pub open spec fn dev_error(code: PadlErrorCode) -> PadlError {
    PadlError { channel: ErrorChannel::Technical, code }
}

/// The error with `code` that the player is shown.
pub open spec fn user_error(code: PadlErrorCode) -> PadlError {
    PadlError { channel: ErrorChannel::UserFacing, code }
}

impl PadlError {
    /// A developer error: a broken contract between client and server, or
    /// between parts of the client.
    pub fn dev_err(code: PadlErrorCode) -> (r: PadlError)
        ensures
            r == dev_error(code),
    {
        PadlError { channel: ErrorChannel::Technical, code }
    }

    /// An error that the player is shown.
    pub fn user_err(code: PadlErrorCode) -> (r: PadlError)
        ensures
            r == user_error(code),
    {
        PadlError { channel: ErrorChannel::UserFacing, code }
    }

    pub open spec fn spec_is_fatal(self) -> bool {
        self.channel is Technical
    }

    /// Whether the error stops the affected subsystem.
    pub fn is_fatal(&self) -> (r: bool)
        ensures
            r == self.spec_is_fatal(),
    {
        match self.channel {
            ErrorChannel::Technical => true,
            ErrorChannel::UserFacing => false,
        }
    }
}

} // verus!
