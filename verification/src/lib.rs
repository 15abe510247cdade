pub mod digest;
pub mod dispatch;
pub mod jobs;
pub mod librus;
pub mod mention;
pub mod pattern;
pub mod store;
pub mod text;

use vstd::prelude::*;
use crate::librus::client::LibrusError;

verus! {

/// What can end a job's iteration early.
#[derive(Clone, Copy, Debug, PartialEq, Eq, Structural)]
pub enum BotError {
    /// The messaging gateway failed.
    SerenityError,
    /// The content provider failed.
    LibrusError(LibrusError),
    /// The digest store failed.
    RedisError,
}

} // verus!
