//! What can go wrong while boards are added and polled.

use vstd::prelude::*;

verus! {

/// The kinds of failure. The details that the outside world attaches to a
/// failure stay with the caller that met it.
#[derive(Clone, Copy, Debug, PartialEq, Eq, Structural)]
pub enum Error {
    /// A directory or a file could not be made, read or written.
    IoError,
    /// A remote address could not be reached or did not answer.
    RemoteError,
    /// The body of a feed is no feed.
    RssError,
    /// A feed item has no description at all.
    MissingDescriptionError,
    /// No owner was named and none is configured.
    MissingUserError,
    /// The command line ended before all arguments were given.
    MissingArgumentsError,
    /// The command line names a command that does not exist.
    InvalidArgument,
    /// No configuration has been set up yet.
    UninitError,
    /// Two boards are kept in the same directory.
    ConfigError,
}

} // verus!
