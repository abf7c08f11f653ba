//! Errors of the library.
use vstd::prelude::*;

verus! {

/// What can go wrong when a device type is parsed or a service is looked up.
#[derive(Debug, Clone, Copy, PartialEq, Eq, Structural)]
pub enum Error {
    /// The text does not name a device type.
    GetDeviceError,
    /// No node offers the requested ability.
    NoSuchService,
}

} // verus!
