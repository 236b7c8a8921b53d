//! Errors of the catalog and of the background operations.
use vstd::prelude::*;

verus! {

/// A report did not match its grammar. `offset` is the position, in
/// characters, of the unconsumed input where recognition stopped.
#[derive(Clone, Copy, Debug, PartialEq, Eq, Structural)]
pub struct ParseError {
    pub offset: usize,
}

/// Which kind of background operation failed to complete.
#[derive(Clone, Copy, Debug, PartialEq, Eq, Structural)]
pub enum ChannelError {
    UpdateKrate,
    UninstallKrate,
    KrateInfo,
}

impl ChannelError {
    /// The message shown to the user for this failure.
    pub fn message(&self) -> (r: &'static str)
        ensures
            r@ == (match *self {
                ChannelError::UpdateKrate => "failed to update krate"@,
                ChannelError::UninstallKrate => "failed to uninstall krate"@,
                ChannelError::KrateInfo => "failed to fetch krate"@,
            }),
    {
        match self {
            ChannelError::UpdateKrate => "failed to update krate",
            ChannelError::UninstallKrate => "failed to uninstall krate",
            ChannelError::KrateInfo => "failed to fetch krate",
        }
    }
}

/// Errors surfaced by the catalog.
#[derive(Clone, Debug, PartialEq, Eq)]
pub enum Error {
    /// A listing or detail report did not parse.
    Parser(ParseError),
    /// A detail result names a package that the catalog does not hold.
    UnmatchedName(String),
    /// A version update names a package that the catalog does not hold.
    KrateNotFound(String),
    /// A listing names this package more than once.
    DuplicateName(String),
    /// A background operation reported failure.
    HandleKrate(ChannelError),
}

} // verus!
