//! The ESP32 platform.

use vstd::prelude::*;
use crate::boards::BoardError;

verus! {

/// The ESP32 platform. It holds no bus of its own yet.
pub struct EspIdfHal {}

impl EspIdfHal {
    pub fn new() -> (r: Result<Self, BoardError>)
        ensures
            r is Ok,
    {
        Ok(EspIdfHal {  })
    }
}

} // verus!
