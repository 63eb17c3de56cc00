//! The settings that the lifecycle rules read.

use crate::time::Duration;
use vstd::prelude::*;

verus! {

/// The settings of one service.
#[derive(Debug)]
pub struct Config {
    /// Time to live given to an entry at its creation.
    pub max_age: Duration,
    /// Grace period before a deletion takes effect that someone other than the owner asked for.
    pub time_to_delete: Duration,
    /// Address under which the service is reached, put before an entry's name in replies.
    pub base_url: String,
}

} // verus!
