//! The identifier that the chip reports about itself.

use vstd::prelude::*;

verus! {

/// The three bytes with which a chip answers a request for its JEDEC identifier, kept
/// as they came.
#[derive(Clone, Copy, Debug, PartialEq, Eq, Structural)]
pub struct JedecId {
    /// Identifier of the manufacturer.
    pub manufacturer: u8,
    /// High byte of the device identifier.
    pub device_high: u8,
    /// Low byte of the device identifier.
    pub device_low: u8,
}

impl JedecId {
    /// The identifier made of three bytes in the order in which the chip sends them.
    pub fn new(manufacturer: u8, device_high: u8, device_low: u8) -> (id: JedecId)
        ensures
            id == (JedecId { manufacturer, device_high, device_low }),
    {
        JedecId { manufacturer, device_high, device_low }
    }

    /// The three bytes in the order in which the chip sent them.
    pub fn bytes(&self) -> (bytes: [u8; 3])
        ensures
            bytes[0] == self.manufacturer,
            bytes[1] == self.device_high,
            bytes[2] == self.device_low,
    {
        [self.manufacturer, self.device_high, self.device_low]
    }
}

} // verus!
