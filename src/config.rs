//! Settings the bot runs with.

use vstd::prelude::*;

verus! {

/// Credentials for the chat service and for the exchange-rate service.
#[derive(Clone, Debug, PartialEq)]
pub struct Config {
    pub api_id: i32,
    pub api_hash: String,
    pub bot_token: String,
    pub api_endpoint: String,
    pub api_token: String,
}

} // verus!
