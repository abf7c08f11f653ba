//! The kinds of device a node can run as, and the services each offers.
use vstd::prelude::*;
use vstd::string::*;

use crate::data::{entry_pairs, UrlEntry};
use crate::error::Error;
use crate::utils::service_entries;
use crate::data::AllAbility;

pub mod phone;
pub mod sports_bracelet;
pub mod treadmill;

verus! {

/// A device that offers abilities over HTTP.
pub trait Device {
    /// The abilities the device offers, in order.
    spec fn offered(&self) -> Seq<AllAbility>;

    /// The entries under which the device, reachable at `http_ip`, offers its
    /// abilities: one per ability, in order.
    fn gen_urls(&self, http_ip: &str) -> (r: Vec<UrlEntry>)
        ensures
            entry_pairs(r@) == service_entries(self.offered(), http_ip@),
    ;
}

/// The kind of device a node runs as.
#[derive(Debug, Clone, Copy, PartialEq, Eq, Structural)]
pub enum DeviceType {
    Phone,
    Treadmill,
    SportsBracelet,
}

/// The device type a name stands for: `Phone` for "Phone", `Treadmill` for
/// "Treadmill" and also for "SportsBracelet", none for any other text.
pub open spec fn device_type_named(s: Seq<char>) -> Option<DeviceType> {
    if s == "Phone"@ {
        Some(DeviceType::Phone)
    } else if s == "Treadmill"@ {
        Some(DeviceType::Treadmill)
    } else if s == "SportsBracelet"@ {
        Some(DeviceType::Treadmill)
    } else {
        None
    }
}

impl DeviceType {
    /// Reads a device type from its name; `GetDeviceError` for an unknown name.
    /// "SportsBracelet" reads as `Treadmill`.
    pub fn from_str(s: &str) -> (r: Result<DeviceType, Error>)
        ensures
            match device_type_named(s@) {
                Some(t) => r == Ok::<DeviceType, Error>(t),
                None => r == Err::<DeviceType, Error>(Error::GetDeviceError),
            },
    {
        let text = String::from_str(s);
        if text == String::from_str("Phone") {
            Ok(DeviceType::Phone)
        } else if text == String::from_str("Treadmill") {
            Ok(DeviceType::Treadmill)
        } else if text == String::from_str("SportsBracelet") {
            Ok(DeviceType::Treadmill)
        } else {
            Err(Error::GetDeviceError)
        }
    }
}

} // verus!
