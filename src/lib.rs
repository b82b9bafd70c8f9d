//! A registry of time-boxed polls: create a poll with options and a voting window, take at most
//! one vote per participant, tally the results, and close polls by hand or once they expire.

mod clock;
pub mod error;
pub mod ident;
pub mod laws;
pub mod poll;
pub mod registry;
pub mod tally;

pub use error::VotingError;
pub use poll::Poll;
pub use registry::VotingContract;
pub use tally::VoteCounts;
