//! Settings of the tunnel device.
use vstd::prelude::*;

use crate::text::{is_blank, is_blank_str};

verus! {

/// How to create the tunnel device. Addresses are IPv4 octets.
pub struct TunOptions {
    pub name: String,
    pub address: [u8; 4],
    pub prefix: u8,
    pub destination: Option<[u8; 4]>,
    pub mtu: u16,
    pub enable_linux_offload: bool,
    pub tx_queue_len: Option<u32>,
}

impl TunOptions {
    /// Whether the device is given the configured name; a blank name leaves
    /// the choice to the system.
    pub fn names_device(&self) -> (b: bool)
        ensures
            b == !is_blank(self.name@),
    {
        !is_blank_str(self.name.as_str())
    }
}

} // verus!
