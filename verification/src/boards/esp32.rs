//! The ESP32 DevKitC: its header pins, then the functions of the grill
//! that are wired to some of them.

use vstd::prelude::*;
use crate::boards::{Pin, PinSpec, PinType, pins_view};

verus! {

pub const BOARD_NAME: &'static str = "ESP32 Dev Board (Esp32EspressifPinMap)";

/// The pins of the board: the header, place by place, then the relays and the fan.
pub open spec fn board_pins() -> Seq<PinSpec> {
    seq![
        PinSpec { gpio_pin: 0, function_name: "BOOT_BUTTON"@, pin_type: PinType::GpioInput, physical_pin: Some(2) },
        PinSpec { gpio_pin: 1, function_name: "UART0_TXD"@, pin_type: PinType::UartTx, physical_pin: Some(1) },
        PinSpec { gpio_pin: 2, function_name: "LED_BUILTIN"@, pin_type: PinType::GpioOutput, physical_pin: Some(3) },
        PinSpec { gpio_pin: 3, function_name: "UART0_RXD"@, pin_type: PinType::UartRx, physical_pin: Some(3) },
        PinSpec { gpio_pin: 4, function_name: "GPIO4_DAC2_ADC10"@, pin_type: PinType::GpioOutput, physical_pin: Some(4) },
        PinSpec { gpio_pin: 5, function_name: "GPIO5_VSPI_CS0"@, pin_type: PinType::SpiCs, physical_pin: Some(5) },
        PinSpec { gpio_pin: 33, function_name: "3V3_1"@, pin_type: PinType::Other("POWER"), physical_pin: Some(6) },
        PinSpec { gpio_pin: 32, function_name: "3V3_2"@, pin_type: PinType::Other("POWER"), physical_pin: Some(7) },
        PinSpec { gpio_pin: 18, function_name: "GPIO18_VSPI_CLK"@, pin_type: PinType::SpiClk, physical_pin: Some(8) },
        PinSpec { gpio_pin: 19, function_name: "GPIO19_VSPI_MISO"@, pin_type: PinType::SpiMiso, physical_pin: Some(9) },
        PinSpec { gpio_pin: 21, function_name: "GPIO21_I2C_SDA"@, pin_type: PinType::I2cSda, physical_pin: Some(10) },
        PinSpec { gpio_pin: 22, function_name: "GPIO22_I2C_SCL"@, pin_type: PinType::I2cScl, physical_pin: Some(11) },
        PinSpec { gpio_pin: 23, function_name: "GPIO23_VSPI_MOSI"@, pin_type: PinType::SpiMosi, physical_pin: Some(12) },
        PinSpec { gpio_pin: 25, function_name: "GPIO25_DAC1_ADC18"@, pin_type: PinType::GpioOutput, physical_pin: Some(13) },
        PinSpec { gpio_pin: 26, function_name: "GPIO26_ADC19"@, pin_type: PinType::GpioInput, physical_pin: Some(14) },
        PinSpec { gpio_pin: 27, function_name: "GPIO27_ADC17"@, pin_type: PinType::GpioInput, physical_pin: Some(15) },
        PinSpec { gpio_pin: 12, function_name: "GPIO12_ADC15_HSPI_MISO"@, pin_type: PinType::GpioInput, physical_pin: Some(16) },
        PinSpec { gpio_pin: 13, function_name: "GPIO13_ADC14_HSPI_MOSI"@, pin_type: PinType::GpioOutput, physical_pin: Some(17) },
        PinSpec { gpio_pin: 14, function_name: "GPIO14_ADC16_HSPI_CLK"@, pin_type: PinType::GpioOutput, physical_pin: Some(18) },
        PinSpec { gpio_pin: 15, function_name: "GPIO15_ADC13_HSPI_CS0"@, pin_type: PinType::SpiCs, physical_pin: Some(19) },
        PinSpec { gpio_pin: 16, function_name: "GPIO16_UART2_RXD"@, pin_type: PinType::UartRx, physical_pin: Some(20) },
        PinSpec { gpio_pin: 17, function_name: "GPIO17_UART2_TXD"@, pin_type: PinType::UartTx, physical_pin: Some(21) },
        PinSpec { gpio_pin: 34, function_name: "GPIO34_ADC6_INPUT_ONLY"@, pin_type: PinType::GpioInput, physical_pin: Some(22) },
        PinSpec { gpio_pin: 35, function_name: "GPIO35_ADC7_INPUT_ONLY"@, pin_type: PinType::GpioInput, physical_pin: Some(23) },
        PinSpec { gpio_pin: 36, function_name: "GPIO36_ADC0_SVP_INPUT_ONLY"@, pin_type: PinType::GpioInput, physical_pin: Some(24) },
        PinSpec { gpio_pin: 39, function_name: "GPIO39_ADC3_SVN_INPUT_ONLY"@, pin_type: PinType::GpioInput, physical_pin: Some(25) },
        PinSpec { gpio_pin: 100, function_name: "GND_1"@, pin_type: PinType::Other("POWER"), physical_pin: Some(26) },
        PinSpec { gpio_pin: 101, function_name: "GND_2"@, pin_type: PinType::Other("POWER"), physical_pin: Some(27) },
        PinSpec { gpio_pin: 6, function_name: "FLASH_CLK"@, pin_type: PinType::Other("FLASH"), physical_pin: Some(28) },
        PinSpec { gpio_pin: 7, function_name: "FLASH_Q_D1"@, pin_type: PinType::Other("FLASH"), physical_pin: Some(29) },
        PinSpec { gpio_pin: 8, function_name: "FLASH_D_D0"@, pin_type: PinType::Other("FLASH"), physical_pin: Some(30) },
        PinSpec { gpio_pin: 9, function_name: "FLASH_HD_D3"@, pin_type: PinType::Other("FLASH"), physical_pin: Some(31) },
        PinSpec { gpio_pin: 10, function_name: "FLASH_WP_D2"@, pin_type: PinType::Other("FLASH"), physical_pin: Some(32) },
        PinSpec { gpio_pin: 11, function_name: "FLASH_CS0_CMD"@, pin_type: PinType::Other("FLASH"), physical_pin: Some(33) },
        PinSpec { gpio_pin: 102, function_name: "GND_3"@, pin_type: PinType::Other("POWER"), physical_pin: Some(34) },
        PinSpec { gpio_pin: 103, function_name: "VIN_5V"@, pin_type: PinType::Other("POWER"), physical_pin: Some(35) },
        PinSpec { gpio_pin: 2, function_name: "RELAY_FAN"@, pin_type: PinType::GpioOutput, physical_pin: Some(2) },
        PinSpec { gpio_pin: 4, function_name: "RELAY_AUG"@, pin_type: PinType::GpioOutput, physical_pin: Some(4) },
        PinSpec { gpio_pin: 5, function_name: "RELAY_IGN"@, pin_type: PinType::GpioOutput, physical_pin: Some(5) },
        PinSpec { gpio_pin: 18, function_name: "PWM_FAN"@, pin_type: PinType::Pwm, physical_pin: Some(8) },
    ]
}

/// The pins of the board: the 36 pins of the header, then the relays and
/// the fan. Every pin has a place on the header.
pub fn pin_map() -> (r: Vec<Pin>)
    ensures
        pins_view(r@) == board_pins(),
        r@.len() == 40,
        forall|i: int| 0 <= i < 40 ==> (#[trigger] r@[i]).physical_pin is Some,
        forall|i: int| 36 <= i < 40 ==> (#[trigger] r@[i]).gpio_pin < 40,
{
    let r = vec![
        Pin { gpio_pin: 0, function_name: "BOOT_BUTTON", pin_type: PinType::GpioInput, physical_pin: Some(2) },
        Pin { gpio_pin: 1, function_name: "UART0_TXD", pin_type: PinType::UartTx, physical_pin: Some(1) },
        Pin { gpio_pin: 2, function_name: "LED_BUILTIN", pin_type: PinType::GpioOutput, physical_pin: Some(3) },
        Pin { gpio_pin: 3, function_name: "UART0_RXD", pin_type: PinType::UartRx, physical_pin: Some(3) },
        Pin { gpio_pin: 4, function_name: "GPIO4_DAC2_ADC10", pin_type: PinType::GpioOutput, physical_pin: Some(4) },
        Pin { gpio_pin: 5, function_name: "GPIO5_VSPI_CS0", pin_type: PinType::SpiCs, physical_pin: Some(5) },
        Pin { gpio_pin: 33, function_name: "3V3_1", pin_type: PinType::Other("POWER"), physical_pin: Some(6) },
        Pin { gpio_pin: 32, function_name: "3V3_2", pin_type: PinType::Other("POWER"), physical_pin: Some(7) },
        Pin { gpio_pin: 18, function_name: "GPIO18_VSPI_CLK", pin_type: PinType::SpiClk, physical_pin: Some(8) },
        Pin { gpio_pin: 19, function_name: "GPIO19_VSPI_MISO", pin_type: PinType::SpiMiso, physical_pin: Some(9) },
        Pin { gpio_pin: 21, function_name: "GPIO21_I2C_SDA", pin_type: PinType::I2cSda, physical_pin: Some(10) },
        Pin { gpio_pin: 22, function_name: "GPIO22_I2C_SCL", pin_type: PinType::I2cScl, physical_pin: Some(11) },
        Pin { gpio_pin: 23, function_name: "GPIO23_VSPI_MOSI", pin_type: PinType::SpiMosi, physical_pin: Some(12) },
        Pin { gpio_pin: 25, function_name: "GPIO25_DAC1_ADC18", pin_type: PinType::GpioOutput, physical_pin: Some(13) },
        Pin { gpio_pin: 26, function_name: "GPIO26_ADC19", pin_type: PinType::GpioInput, physical_pin: Some(14) },
        Pin { gpio_pin: 27, function_name: "GPIO27_ADC17", pin_type: PinType::GpioInput, physical_pin: Some(15) },
        Pin { gpio_pin: 12, function_name: "GPIO12_ADC15_HSPI_MISO", pin_type: PinType::GpioInput, physical_pin: Some(16) },
        Pin { gpio_pin: 13, function_name: "GPIO13_ADC14_HSPI_MOSI", pin_type: PinType::GpioOutput, physical_pin: Some(17) },
        Pin { gpio_pin: 14, function_name: "GPIO14_ADC16_HSPI_CLK", pin_type: PinType::GpioOutput, physical_pin: Some(18) },
        Pin { gpio_pin: 15, function_name: "GPIO15_ADC13_HSPI_CS0", pin_type: PinType::SpiCs, physical_pin: Some(19) },
        Pin { gpio_pin: 16, function_name: "GPIO16_UART2_RXD", pin_type: PinType::UartRx, physical_pin: Some(20) },
        Pin { gpio_pin: 17, function_name: "GPIO17_UART2_TXD", pin_type: PinType::UartTx, physical_pin: Some(21) },
        Pin { gpio_pin: 34, function_name: "GPIO34_ADC6_INPUT_ONLY", pin_type: PinType::GpioInput, physical_pin: Some(22) },
        Pin { gpio_pin: 35, function_name: "GPIO35_ADC7_INPUT_ONLY", pin_type: PinType::GpioInput, physical_pin: Some(23) },
        Pin { gpio_pin: 36, function_name: "GPIO36_ADC0_SVP_INPUT_ONLY", pin_type: PinType::GpioInput, physical_pin: Some(24) },
        Pin { gpio_pin: 39, function_name: "GPIO39_ADC3_SVN_INPUT_ONLY", pin_type: PinType::GpioInput, physical_pin: Some(25) },
        Pin { gpio_pin: 100, function_name: "GND_1", pin_type: PinType::Other("POWER"), physical_pin: Some(26) },
        Pin { gpio_pin: 101, function_name: "GND_2", pin_type: PinType::Other("POWER"), physical_pin: Some(27) },
        Pin { gpio_pin: 6, function_name: "FLASH_CLK", pin_type: PinType::Other("FLASH"), physical_pin: Some(28) },
        Pin { gpio_pin: 7, function_name: "FLASH_Q_D1", pin_type: PinType::Other("FLASH"), physical_pin: Some(29) },
        Pin { gpio_pin: 8, function_name: "FLASH_D_D0", pin_type: PinType::Other("FLASH"), physical_pin: Some(30) },
        Pin { gpio_pin: 9, function_name: "FLASH_HD_D3", pin_type: PinType::Other("FLASH"), physical_pin: Some(31) },
        Pin { gpio_pin: 10, function_name: "FLASH_WP_D2", pin_type: PinType::Other("FLASH"), physical_pin: Some(32) },
        Pin { gpio_pin: 11, function_name: "FLASH_CS0_CMD", pin_type: PinType::Other("FLASH"), physical_pin: Some(33) },
        Pin { gpio_pin: 102, function_name: "GND_3", pin_type: PinType::Other("POWER"), physical_pin: Some(34) },
        Pin { gpio_pin: 103, function_name: "VIN_5V", pin_type: PinType::Other("POWER"), physical_pin: Some(35) },
        Pin { gpio_pin: 2, function_name: "RELAY_FAN", pin_type: PinType::GpioOutput, physical_pin: Some(2) },
        Pin { gpio_pin: 4, function_name: "RELAY_AUG", pin_type: PinType::GpioOutput, physical_pin: Some(4) },
        Pin { gpio_pin: 5, function_name: "RELAY_IGN", pin_type: PinType::GpioOutput, physical_pin: Some(5) },
        Pin { gpio_pin: 18, function_name: "PWM_FAN", pin_type: PinType::Pwm, physical_pin: Some(8) },
    ];
    assert(pins_view(r@) =~~= board_pins());
    r
}

} // verus!
