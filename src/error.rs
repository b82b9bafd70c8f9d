use vstd::prelude::*;

verus! {

/// Why an operation on the registry or on a poll was refused.
#[derive(Debug, Clone, Copy, PartialEq, Eq, Structural)]
pub enum VotingError {
    /// No poll has the given identifier.
    PollNotFound,
    /// The poll is closed, or the time lies outside its voting window.
    PollClosed,
    /// The participant has already voted in this poll.
    AlreadyVoted,
    /// Only the administrator or the poll's creator may close it.
    NotAuthorized,
    /// The option is not one of the poll's declared options.
    InvalidOption,
    /// A poll needs at least two options.
    PollCreationFailed,
    /// A poll needs a positive duration.
    InvalidTimeSettings,
}

} // verus!
