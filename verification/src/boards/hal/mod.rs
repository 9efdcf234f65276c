//! Platforms: how a pin is driven on the hardware at hand.

pub mod esp32_hal;
