//! Columnar ("structure of arrays") storage for order records.
//!
//! - `order`: the record shape and its enumerations.
//! - `soa`: the column model, its row projections and the column-length
//!   invariant.
//! - `store`: a copy-on-write handle on one column model.
//! - `sharded`: rows spread over independent column models by key hash.
//! - `codes`: the integer code of each enumeration variant.
//! - `batch`, `conversion`: the columnar batch boundary.
//! - `persistence`, `persistent_store`: in-memory persistence of batches.
use vstd::prelude::*;

pub mod order;
pub mod soa;
pub mod store;
pub mod sharded;
pub mod errors;
pub mod codes;
pub mod batch;
pub mod conversion;
pub mod persistence;
pub mod persistent_store;

verus! {

} // verus!
