// A bridge relayer's decisions: which source-chain deposits to mint on the destination
// chain, with which nonce, and which waiting callers to tell the result.

use vstd::prelude::*;

pub mod backoff;
pub mod config;
pub mod hex;
pub mod ledger;
pub mod relay;
pub mod requests;
pub mod types;

verus! {

} // verus!
