//! Ballot-tallying state transitions over a ledger of records whose
//! addresses are derived from their logical keys.

pub mod address;
pub mod state;
pub mod voting;
pub mod laws;

pub use address::StringExt;
pub use state::{Candidate, Poll};
pub use voting::{InitializeCandidate, InitializePoll, Vote};
