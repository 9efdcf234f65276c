//! The PiFire PWM board on a Raspberry Pi Zero 2 W: its pins by function,
//! and where each of them sits on the 40-pin header.

use vstd::prelude::*;
use crate::boards::{Pin, PinSpec, PinType, pins_view};

verus! {

pub const BOARD_NAME: &'static str = "PiFire PWM Board (Raspberry Pi, RpiPfpwmPinMap)";

/// The place on the 40-pin header of GPIO `gpio`, for the 28 GPIOs that
/// the header carries.
pub open spec fn header_pin(gpio: int) -> int {
    if gpio == 0 {
        27
    } else if gpio == 1 {
        28
    } else if gpio == 2 {
        3
    } else if gpio == 3 {
        5
    } else if gpio == 4 {
        7
    } else if gpio == 5 {
        29
    } else if gpio == 6 {
        31
    } else if gpio == 7 {
        26
    } else if gpio == 8 {
        24
    } else if gpio == 9 {
        21
    } else if gpio == 10 {
        19
    } else if gpio == 11 {
        23
    } else if gpio == 12 {
        32
    } else if gpio == 13 {
        33
    } else if gpio == 14 {
        8
    } else if gpio == 15 {
        10
    } else if gpio == 16 {
        36
    } else if gpio == 17 {
        11
    } else if gpio == 18 {
        12
    } else if gpio == 19 {
        35
    } else if gpio == 20 {
        38
    } else if gpio == 21 {
        40
    } else if gpio == 22 {
        15
    } else if gpio == 23 {
        16
    } else if gpio == 24 {
        18
    } else if gpio == 25 {
        22
    } else if gpio == 26 {
        37
    } else {
        13
    }
}

/// The pins of the board, in the order of their GPIO numbers.
pub open spec fn board_pins() -> Seq<PinSpec> {
    seq![
        PinSpec { gpio_pin: 0, function_name: ""@, pin_type: PinType::Unassigned, physical_pin: Some(27) },
        PinSpec { gpio_pin: 1, function_name: ""@, pin_type: PinType::Unassigned, physical_pin: Some(28) },
        PinSpec { gpio_pin: 2, function_name: "I2C_SDA"@, pin_type: PinType::I2cSda, physical_pin: Some(3) },
        PinSpec { gpio_pin: 3, function_name: "I2C_SCL"@, pin_type: PinType::I2cScl, physical_pin: Some(5) },
        PinSpec { gpio_pin: 4, function_name: "RELAY_PWR"@, pin_type: PinType::GpioOutput, physical_pin: Some(7) },
        PinSpec { gpio_pin: 5, function_name: "SPI_LED"@, pin_type: PinType::GpioOutput, physical_pin: Some(29) },
        PinSpec { gpio_pin: 6, function_name: ""@, pin_type: PinType::Unassigned, physical_pin: Some(31) },
        PinSpec { gpio_pin: 7, function_name: ""@, pin_type: PinType::Unassigned, physical_pin: Some(26) },
        PinSpec { gpio_pin: 8, function_name: "SPI_CS"@, pin_type: PinType::SpiCs, physical_pin: Some(24) },
        PinSpec { gpio_pin: 9, function_name: "SPI_MISO"@, pin_type: PinType::SpiMiso, physical_pin: Some(21) },
        PinSpec { gpio_pin: 10, function_name: "SPI_MOSI"@, pin_type: PinType::SpiMosi, physical_pin: Some(19) },
        PinSpec { gpio_pin: 11, function_name: "SPI_SCLK"@, pin_type: PinType::SpiClk, physical_pin: Some(23) },
        PinSpec { gpio_pin: 12, function_name: ""@, pin_type: PinType::Unassigned, physical_pin: Some(32) },
        PinSpec { gpio_pin: 13, function_name: "FAN_PWM"@, pin_type: PinType::Pwm, physical_pin: Some(33) },
        PinSpec { gpio_pin: 14, function_name: "RELAY_AUG"@, pin_type: PinType::GpioOutput, physical_pin: Some(8) },
        PinSpec { gpio_pin: 15, function_name: "RELAY_FAN"@, pin_type: PinType::GpioOutput, physical_pin: Some(10) },
        PinSpec { gpio_pin: 16, function_name: "ROTARY_CLK"@, pin_type: PinType::GpioInput, physical_pin: Some(36) },
        PinSpec { gpio_pin: 17, function_name: "SWITCH_ONOFF"@, pin_type: PinType::GpioInput, physical_pin: Some(11) },
        PinSpec { gpio_pin: 18, function_name: "RELAY_IGN"@, pin_type: PinType::GpioOutput, physical_pin: Some(12) },
        PinSpec { gpio_pin: 19, function_name: ""@, pin_type: PinType::Unassigned, physical_pin: Some(35) },
        PinSpec { gpio_pin: 20, function_name: "ROTARY_DT"@, pin_type: PinType::GpioInput, physical_pin: Some(38) },
        PinSpec { gpio_pin: 21, function_name: "ROTARY_SW"@, pin_type: PinType::GpioInput, physical_pin: Some(40) },
        PinSpec { gpio_pin: 22, function_name: ""@, pin_type: PinType::Unassigned, physical_pin: Some(15) },
        PinSpec { gpio_pin: 23, function_name: ""@, pin_type: PinType::Unassigned, physical_pin: Some(16) },
        PinSpec { gpio_pin: 24, function_name: "SPI_DC"@, pin_type: PinType::GpioOutput, physical_pin: Some(18) },
        PinSpec { gpio_pin: 25, function_name: "SPI_RST"@, pin_type: PinType::GpioOutput, physical_pin: Some(22) },
        PinSpec { gpio_pin: 26, function_name: "FAN"@, pin_type: PinType::GpioOutput, physical_pin: Some(37) },
        PinSpec { gpio_pin: 27, function_name: "TACH"@, pin_type: PinType::GpioInput, physical_pin: Some(13) },
    ]
}

/// The pins of the board. The pin at position `i` is GPIO `i`, at its
/// place on the header.
pub fn pin_map() -> (r: Vec<Pin>)
    ensures
        pins_view(r@) == board_pins(),
        r@.len() == 28,
        forall|i: int| 0 <= i < 28 ==> (#[trigger] r@[i]).gpio_pin == i,
        forall|i: int| 0 <= i < 28 ==> (#[trigger] r@[i]).physical_pin == Some(header_pin(i) as u8),
{
    let r = vec![
        Pin { gpio_pin: 0, function_name: "", pin_type: PinType::Unassigned, physical_pin: Some(27) },
        Pin { gpio_pin: 1, function_name: "", pin_type: PinType::Unassigned, physical_pin: Some(28) },
        Pin { gpio_pin: 2, function_name: "I2C_SDA", pin_type: PinType::I2cSda, physical_pin: Some(3) },
        Pin { gpio_pin: 3, function_name: "I2C_SCL", pin_type: PinType::I2cScl, physical_pin: Some(5) },
        Pin { gpio_pin: 4, function_name: "RELAY_PWR", pin_type: PinType::GpioOutput, physical_pin: Some(7) },
        Pin { gpio_pin: 5, function_name: "SPI_LED", pin_type: PinType::GpioOutput, physical_pin: Some(29) },
        Pin { gpio_pin: 6, function_name: "", pin_type: PinType::Unassigned, physical_pin: Some(31) },
        Pin { gpio_pin: 7, function_name: "", pin_type: PinType::Unassigned, physical_pin: Some(26) },
        Pin { gpio_pin: 8, function_name: "SPI_CS", pin_type: PinType::SpiCs, physical_pin: Some(24) },
        Pin { gpio_pin: 9, function_name: "SPI_MISO", pin_type: PinType::SpiMiso, physical_pin: Some(21) },
        Pin { gpio_pin: 10, function_name: "SPI_MOSI", pin_type: PinType::SpiMosi, physical_pin: Some(19) },
        Pin { gpio_pin: 11, function_name: "SPI_SCLK", pin_type: PinType::SpiClk, physical_pin: Some(23) },
        Pin { gpio_pin: 12, function_name: "", pin_type: PinType::Unassigned, physical_pin: Some(32) },
        Pin { gpio_pin: 13, function_name: "FAN_PWM", pin_type: PinType::Pwm, physical_pin: Some(33) },
        Pin { gpio_pin: 14, function_name: "RELAY_AUG", pin_type: PinType::GpioOutput, physical_pin: Some(8) },
        Pin { gpio_pin: 15, function_name: "RELAY_FAN", pin_type: PinType::GpioOutput, physical_pin: Some(10) },
        Pin { gpio_pin: 16, function_name: "ROTARY_CLK", pin_type: PinType::GpioInput, physical_pin: Some(36) },
        Pin { gpio_pin: 17, function_name: "SWITCH_ONOFF", pin_type: PinType::GpioInput, physical_pin: Some(11) },
        Pin { gpio_pin: 18, function_name: "RELAY_IGN", pin_type: PinType::GpioOutput, physical_pin: Some(12) },
        Pin { gpio_pin: 19, function_name: "", pin_type: PinType::Unassigned, physical_pin: Some(35) },
        Pin { gpio_pin: 20, function_name: "ROTARY_DT", pin_type: PinType::GpioInput, physical_pin: Some(38) },
        Pin { gpio_pin: 21, function_name: "ROTARY_SW", pin_type: PinType::GpioInput, physical_pin: Some(40) },
        Pin { gpio_pin: 22, function_name: "", pin_type: PinType::Unassigned, physical_pin: Some(15) },
        Pin { gpio_pin: 23, function_name: "", pin_type: PinType::Unassigned, physical_pin: Some(16) },
        Pin { gpio_pin: 24, function_name: "SPI_DC", pin_type: PinType::GpioOutput, physical_pin: Some(18) },
        Pin { gpio_pin: 25, function_name: "SPI_RST", pin_type: PinType::GpioOutput, physical_pin: Some(22) },
        Pin { gpio_pin: 26, function_name: "FAN", pin_type: PinType::GpioOutput, physical_pin: Some(37) },
        Pin { gpio_pin: 27, function_name: "TACH", pin_type: PinType::GpioInput, physical_pin: Some(13) },
    ];
    assert(pins_view(r@) =~~= board_pins());
    r
}

/// Some entry of `entries` is for GPIO `gpio`.
pub open spec fn lists_gpio(entries: Seq<(u8, u8, &'static str)>, gpio: int) -> bool {
    exists|i: int| 0 <= i < entries.len() && (#[trigger] entries[i]).1 == gpio
}

/// The header, place by place: the place on the header, the GPIO number
/// and the function that the pin serves.
pub open spec fn header_entries() -> Seq<(int, int, Seq<char>)> {
    seq![
        (3int, 2int, "I2C_SDA"@),
        (5int, 3int, "I2C_SCL"@),
        (7int, 4int, "RELAY_PWR"@),
        (8int, 14int, "RELAY_AUG"@),
        (10int, 15int, "RELAY_FAN"@),
        (11int, 17int, "SWITCH_ONOFF"@),
        (12int, 18int, "RELAY_IGN"@),
        (13int, 27int, "TACH"@),
        (15int, 22int, ""@),
        (16int, 23int, ""@),
        (18int, 24int, "SPI_DC"@),
        (19int, 10int, "SPI_MOSI"@),
        (21int, 9int, "SPI_MISO"@),
        (22int, 25int, "SPI_RST"@),
        (23int, 11int, "SPI_SCK"@),
        (24int, 8int, "SPI_CS"@),
        (26int, 7int, ""@),
        (27int, 0int, ""@),
        (28int, 1int, ""@),
        (29int, 5int, "SPI_LED"@),
        (31int, 6int, ""@),
        (32int, 12int, ""@),
        (33int, 13int, "FAN_PWM"@),
        (35int, 19int, ""@),
        (36int, 16int, "ROTARY_CLK"@),
        (37int, 26int, "FAN"@),
        (38int, 20int, "ROTARY_DT"@),
        (40int, 21int, "ROTARY_SW"@),
    ]
}

/// The entries of a header list as contracts see them.
pub open spec fn entries_view(entries: Seq<(u8, u8, &'static str)>) -> Seq<(int, int, Seq<char>)> {
    entries.map_values(|e: (u8, u8, &'static str)| (e.0 as int, e.1 as int, e.2@))
}

/// The header as a list of (place on the header, GPIO number, function),
/// in the order of the places. Every GPIO of the header occurs once, at its
/// place.
pub fn physical_pin_map() -> (r: Vec<(u8, u8, &'static str)>)
    ensures
        entries_view(r@) == header_entries(),
        r@.len() == 28,
        forall|i: int, j: int| 0 <= i < j < 28 ==> (#[trigger] r@[i]).0 < (#[trigger] r@[j]).0,
        forall|i: int| 0 <= i < 28 ==> (#[trigger] r@[i]).1 < 28 && r@[i].0 == header_pin(r@[i].1 as int),
        forall|g: int| 0 <= g < 28 ==> #[trigger] lists_gpio(r@, g),
{
    let r = vec![
        (3u8, 2u8, "I2C_SDA"),
        (5, 3, "I2C_SCL"),
        (7, 4, "RELAY_PWR"),
        (8, 14, "RELAY_AUG"),
        (10, 15, "RELAY_FAN"),
        (11, 17, "SWITCH_ONOFF"),
        (12, 18, "RELAY_IGN"),
        (13, 27, "TACH"),
        (15, 22, ""),
        (16, 23, ""),
        (18, 24, "SPI_DC"),
        (19, 10, "SPI_MOSI"),
        (21, 9, "SPI_MISO"),
        (22, 25, "SPI_RST"),
        (23, 11, "SPI_SCK"),
        (24, 8, "SPI_CS"),
        (26, 7, ""),
        (27, 0, ""),
        (28, 1, ""),
        (29, 5, "SPI_LED"),
        (31, 6, ""),
        (32, 12, ""),
        (33, 13, "FAN_PWM"),
        (35, 19, ""),
        (36, 16, "ROTARY_CLK"),
        (37, 26, "FAN"),
        (38, 20, "ROTARY_DT"),
        (40, 21, "ROTARY_SW"),
    ];
    proof {
        assert(r@[17].1 == 0 && r@[18].1 == 1 && r@[0].1 == 2 && r@[1].1 == 3 && r@[2].1 == 4
            && r@[19].1 == 5 && r@[20].1 == 6);
        assert(r@[16].1 == 7 && r@[15].1 == 8 && r@[12].1 == 9 && r@[11].1 == 10 && r@[14].1
            == 11 && r@[21].1 == 12 && r@[22].1 == 13);
        assert(r@[3].1 == 14 && r@[4].1 == 15 && r@[24].1 == 16 && r@[5].1 == 17 && r@[6].1 == 18
            && r@[23].1 == 19 && r@[26].1 == 20);
        assert(entries_view(r@) =~~= header_entries());
        assert(r@[27].1 == 21 && r@[8].1 == 22 && r@[9].1 == 23 && r@[10].1 == 24 && r@[13].1
            == 25 && r@[25].1 == 26 && r@[7].1 == 27);
    }
    r
}

} // verus!
