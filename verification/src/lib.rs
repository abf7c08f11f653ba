//! A small distributed service registry: devices advertise their abilities
//! to peers, and any node can look up a service URL for an ability.
use vstd::prelude::*;

pub mod bus;
pub mod data;
pub mod device;
pub mod error;
pub mod schedule;
pub mod utils;

pub use error::Error;

verus! {

/// Results of the library's fallible operations.
pub type Result<T> = core::result::Result<T, Error>;

} // verus!
