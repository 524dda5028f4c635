//! Pieces of a multi-thread blockchain node around its consensus core:
//! connection establishment for bootstrap (address normalisation, listener
//! setup, connection timeouts), the life cycle of a block's status, the
//! wishlist of missing blocks, the guard against double production, and the
//! ledger of balances with exact rollback. Socket I/O is left to the caller.
use vstd::prelude::*;

pub mod address;
pub mod establisher;
pub mod ledger;
pub mod production;
pub mod status;
pub mod wishlist;

verus! {

} // verus!
