//! The Orange Pi Zero 2: its pins by function. Control code names a
//! function, such as `RELAY_FAN`, and gets the pin of the board in use.

use vstd::prelude::*;
use crate::boards::{Pin, PinSpec, PinType, pins_view};

verus! {

pub const BOARD_NAME: &'static str = "Orange Pi Zero 2 (OpiZeroPinMap)";

/// The pins of the board, in the order of their GPIO numbers.
pub open spec fn board_pins() -> Seq<PinSpec> {
    seq![
        PinSpec { gpio_pin: 0, function_name: "I2C_SDA"@, pin_type: PinType::I2cSda, physical_pin: Some(3) },
        PinSpec { gpio_pin: 1, function_name: "I2C_SCL"@, pin_type: PinType::I2cScl, physical_pin: Some(5) },
        PinSpec { gpio_pin: 2, function_name: "UART_TX"@, pin_type: PinType::UartTx, physical_pin: Some(8) },
        PinSpec { gpio_pin: 3, function_name: "UART_RX"@, pin_type: PinType::UartRx, physical_pin: Some(10) },
        PinSpec { gpio_pin: 4, function_name: "RELAY_PWR"@, pin_type: PinType::GpioOutput, physical_pin: Some(7) },
        PinSpec { gpio_pin: 5, function_name: "SPI_LED"@, pin_type: PinType::GpioOutput, physical_pin: Some(29) },
        PinSpec { gpio_pin: 6, function_name: "RELAY_FAN"@, pin_type: PinType::GpioOutput, physical_pin: Some(12) },
        PinSpec { gpio_pin: 7, function_name: "RELAY_AUG"@, pin_type: PinType::GpioOutput, physical_pin: Some(16) },
        PinSpec { gpio_pin: 8, function_name: "RELAY_IGN"@, pin_type: PinType::GpioOutput, physical_pin: Some(18) },
        PinSpec { gpio_pin: 9, function_name: "FAN_PWM"@, pin_type: PinType::Pwm, physical_pin: Some(33) },
        PinSpec { gpio_pin: 10, function_name: "FAN"@, pin_type: PinType::GpioOutput, physical_pin: Some(37) },
        PinSpec { gpio_pin: 11, function_name: "TACH"@, pin_type: PinType::GpioInput, physical_pin: Some(13) },
        PinSpec { gpio_pin: 12, function_name: "ROTARY_CLK"@, pin_type: PinType::GpioInput, physical_pin: Some(36) },
        PinSpec { gpio_pin: 13, function_name: "ROTARY_DT"@, pin_type: PinType::GpioInput, physical_pin: Some(38) },
        PinSpec { gpio_pin: 14, function_name: "ROTARY_SW"@, pin_type: PinType::GpioInput, physical_pin: Some(40) },
        PinSpec { gpio_pin: 15, function_name: "SWITCH_ONOFF"@, pin_type: PinType::GpioInput, physical_pin: Some(11) },
    ]
}

/// The pins of the board. The pin at position `i` is GPIO `i`.
pub fn pin_map() -> (r: Vec<Pin>)
    ensures
        pins_view(r@) == board_pins(),
        r@.len() == 16,
        forall|i: int| 0 <= i < 16 ==> (#[trigger] r@[i]).gpio_pin == i,
        forall|i: int| 0 <= i < 16 ==> (#[trigger] r@[i]).physical_pin is Some,
{
    let r = vec![
        Pin { gpio_pin: 0, function_name: "I2C_SDA", pin_type: PinType::I2cSda, physical_pin: Some(3) },
        Pin { gpio_pin: 1, function_name: "I2C_SCL", pin_type: PinType::I2cScl, physical_pin: Some(5) },
        Pin { gpio_pin: 2, function_name: "UART_TX", pin_type: PinType::UartTx, physical_pin: Some(8) },
        Pin { gpio_pin: 3, function_name: "UART_RX", pin_type: PinType::UartRx, physical_pin: Some(10) },
        Pin { gpio_pin: 4, function_name: "RELAY_PWR", pin_type: PinType::GpioOutput, physical_pin: Some(7) },
        Pin { gpio_pin: 5, function_name: "SPI_LED", pin_type: PinType::GpioOutput, physical_pin: Some(29) },
        Pin { gpio_pin: 6, function_name: "RELAY_FAN", pin_type: PinType::GpioOutput, physical_pin: Some(12) },
        Pin { gpio_pin: 7, function_name: "RELAY_AUG", pin_type: PinType::GpioOutput, physical_pin: Some(16) },
        Pin { gpio_pin: 8, function_name: "RELAY_IGN", pin_type: PinType::GpioOutput, physical_pin: Some(18) },
        Pin { gpio_pin: 9, function_name: "FAN_PWM", pin_type: PinType::Pwm, physical_pin: Some(33) },
        Pin { gpio_pin: 10, function_name: "FAN", pin_type: PinType::GpioOutput, physical_pin: Some(37) },
        Pin { gpio_pin: 11, function_name: "TACH", pin_type: PinType::GpioInput, physical_pin: Some(13) },
        Pin { gpio_pin: 12, function_name: "ROTARY_CLK", pin_type: PinType::GpioInput, physical_pin: Some(36) },
        Pin { gpio_pin: 13, function_name: "ROTARY_DT", pin_type: PinType::GpioInput, physical_pin: Some(38) },
        Pin { gpio_pin: 14, function_name: "ROTARY_SW", pin_type: PinType::GpioInput, physical_pin: Some(40) },
        Pin { gpio_pin: 15, function_name: "SWITCH_ONOFF", pin_type: PinType::GpioInput, physical_pin: Some(11) },
    ];
    assert(pins_view(r@) =~~= board_pins());
    r
}

} // verus!
