//! A sports bracelet: a node that offers collecting body data.
use vstd::prelude::*;

use crate::data::{AllAbility, UrlEntry};
use crate::device::Device;
use crate::utils::gen_urls;

verus! {

/// A node running as this kind of device, with the abilities it offers.
pub struct SportsBracelet {
    pub abilities: Vec<AllAbility>,
}

impl Device for SportsBracelet {
    open spec fn offered(&self) -> Seq<AllAbility> {
        self.abilities@
    }

    fn gen_urls(&self, http_ip: &str) -> (r: Vec<UrlEntry>) {
        gen_urls(&self.abilities, http_ip)
    }
}

} // verus!
