//! Boards: which pin serves which function, and the logical view of a
//! board that the rest of the application works with.

pub mod esp32;
pub mod hal;
pub mod orangepi;
pub mod pfpwm;

use vstd::prelude::*;
use vstd::string::*;
use crate::literal::{decimal_text, format_i64};
use crate::text::str_eq;

verus! {

/// The level of a digital pin.
#[derive(Debug, Clone, Copy, PartialEq, Eq, Structural)]
pub enum HalPinState {
    High,
    Low,
}

/// The error of the stand-in platform.
#[derive(Debug, Clone)]
pub struct DummyHalError(pub String);

impl DummyHalError {
    /// What the error says.
    pub open spec fn spec_message(&self) -> Seq<char> {
        "DummyHalError: "@ + self.0@
    }

    /// What the error says.
    pub fn message(&self) -> (r: String)
        ensures
            r@ == self.spec_message(),
    {
        let mut r = "DummyHalError: ".to_owned();
        r.append(self.0.as_str());
        r
    }
}

/// Why an operation on a board failed.
#[derive(Debug, Clone)]
pub enum BoardError {
    General(String),
    PinMapError(String),
    Dummy(DummyHalError),
    FeatureNotEnabled(String),
    DatabaseError(String),
    UnknownBoard(String),
    IoError(String),
    HalError(String),
    PinNotFound(String),
    InvalidPinType(String),
}

/// What a pin is used for.
#[derive(Debug, Clone, Copy)]
pub enum PinType {
    GpioOutput,
    GpioInput,
    Pwm,
    SpiMosi,
    SpiMiso,
    SpiClk,
    SpiCs,
    I2cSda,
    I2cScl,
    UartTx,
    UartRx,
    Unassigned,
    Other(&'static str),
}

impl PinType {
    /// The name of the use, as it is written in this source.
    pub open spec fn spec_label(self) -> Seq<char> {
        match self {
            PinType::GpioOutput => "GpioOutput"@,
            PinType::GpioInput => "GpioInput"@,
            PinType::Pwm => "Pwm"@,
            PinType::SpiMosi => "SpiMosi"@,
            PinType::SpiMiso => "SpiMiso"@,
            PinType::SpiClk => "SpiClk"@,
            PinType::SpiCs => "SpiCs"@,
            PinType::I2cSda => "I2cSda"@,
            PinType::I2cScl => "I2cScl"@,
            PinType::UartTx => "UartTx"@,
            PinType::UartRx => "UartRx"@,
            PinType::Unassigned => "Unassigned"@,
            PinType::Other(what) => "Other(\""@ + what@ + "\")"@,
        }
    }

    /// The name of the use, as it is written in this source.
    pub fn label(&self) -> (r: String)
        ensures
            r@ == self.spec_label(),
    {
        match self {
            PinType::GpioOutput => "GpioOutput".to_owned(),
            PinType::GpioInput => "GpioInput".to_owned(),
            PinType::Pwm => "Pwm".to_owned(),
            PinType::SpiMosi => "SpiMosi".to_owned(),
            PinType::SpiMiso => "SpiMiso".to_owned(),
            PinType::SpiClk => "SpiClk".to_owned(),
            PinType::SpiCs => "SpiCs".to_owned(),
            PinType::I2cSda => "I2cSda".to_owned(),
            PinType::I2cScl => "I2cScl".to_owned(),
            PinType::UartTx => "UartTx".to_owned(),
            PinType::UartRx => "UartRx".to_owned(),
            PinType::Unassigned => "Unassigned".to_owned(),
            PinType::Other(what) => {
                let mut r = "Other(\"".to_owned();
                r.append(what);
                r.append("\")");
                r
            },
        }
    }

    /// The two uses are the same: the same kind, and for another use the
    /// same word.
    pub open spec fn same(self, other: PinType) -> bool {
        match (self, other) {
            (PinType::GpioOutput, PinType::GpioOutput) => true,
            (PinType::GpioInput, PinType::GpioInput) => true,
            (PinType::Pwm, PinType::Pwm) => true,
            (PinType::SpiMosi, PinType::SpiMosi) => true,
            (PinType::SpiMiso, PinType::SpiMiso) => true,
            (PinType::SpiClk, PinType::SpiClk) => true,
            (PinType::SpiCs, PinType::SpiCs) => true,
            (PinType::I2cSda, PinType::I2cSda) => true,
            (PinType::I2cScl, PinType::I2cScl) => true,
            (PinType::UartTx, PinType::UartTx) => true,
            (PinType::UartRx, PinType::UartRx) => true,
            (PinType::Unassigned, PinType::Unassigned) => true,
            (PinType::Other(a), PinType::Other(b)) => a@ == b@,
            _ => false,
        }
    }

    /// Whether the two uses are the same.
    pub fn is(&self, other: &PinType) -> (r: bool)
        ensures
            r == self.same(*other),
    {
        match (self, other) {
            (PinType::GpioOutput, PinType::GpioOutput) => true,
            (PinType::GpioInput, PinType::GpioInput) => true,
            (PinType::Pwm, PinType::Pwm) => true,
            (PinType::SpiMosi, PinType::SpiMosi) => true,
            (PinType::SpiMiso, PinType::SpiMiso) => true,
            (PinType::SpiClk, PinType::SpiClk) => true,
            (PinType::SpiCs, PinType::SpiCs) => true,
            (PinType::I2cSda, PinType::I2cSda) => true,
            (PinType::I2cScl, PinType::I2cScl) => true,
            (PinType::UartTx, PinType::UartTx) => true,
            (PinType::UartRx, PinType::UartRx) => true,
            (PinType::Unassigned, PinType::Unassigned) => true,
            (PinType::Other(a), PinType::Other(b)) => str_eq(a, b),
            _ => false,
        }
    }
}

impl PartialEq for PinType {
    fn eq(&self, other: &PinType) -> (r: bool) {
        self.is(other)
    }
}

impl vstd::std_specs::cmp::PartialEqSpecImpl for PinType {
    open spec fn obeys_eq_spec() -> bool {
        true
    }

    open spec fn eq_spec(&self, other: &PinType) -> bool {
        self.same(*other)
    }
}

/// One pin of a board.
#[derive(Debug, Clone, Copy)]
pub struct Pin {
    /// The number of the pin as the chip counts it.
    pub gpio_pin: u8,
    /// The function that the pin serves, such as `RELAY_FAN`; empty where
    /// it serves none.
    pub function_name: &'static str,
    pub pin_type: PinType,
    /// The number of the pin on the board's header, for reference.
    pub physical_pin: Option<u8>,
}

/// A pin as contracts see it.
#[verifier::ext_equal]
pub struct PinSpec {
    pub gpio_pin: int,
    pub function_name: Seq<char>,
    pub pin_type: PinType,
    pub physical_pin: Option<int>,
}

impl View for Pin {
    type V = PinSpec;

    open spec fn view(&self) -> PinSpec {
        PinSpec {
            gpio_pin: self.gpio_pin as int,
            function_name: self.function_name@,
            pin_type: self.pin_type,
            physical_pin: match self.physical_pin {
                Some(p) => Some(p as int),
                None => None,
            },
        }
    }
}

/// A list of pins as contracts see it.
pub open spec fn pins_view(pins: Seq<Pin>) -> Seq<PinSpec> {
    pins.map_values(|p: Pin| p@)
}

/// The first pin of `pins` that serves `function_name`.
pub open spec fn first_pin(pins: Seq<Pin>, function_name: Seq<char>) -> Option<Pin>
    decreases pins.len(),
{
    if pins.len() == 0 {
        None
    } else if pins[0].function_name@ == function_name {
        Some(pins[0])
    } else {
        first_pin(pins.drop_first(), function_name)
    }
}

/// The pins of a board by the function that each serves.
pub trait BoardPinMap {
    /// The pins of the board, in the order in which they are searched.
    spec fn spec_pins(&self) -> Seq<Pin>;

    /// The first pin that serves `function_name`.
    fn pin_for_function(&self, function_name: &str) -> (r: Option<Pin>)
        ensures
            r == first_pin(self.spec_pins(), function_name@),
    ;

    /// All pins of the board.
    fn get_all_pins(&self) -> (r: Vec<Pin>)
        ensures
            r@ == self.spec_pins(),
    ;

    /// The name of the board.
    fn get_board_name(&self) -> (r: &'static str)
    ;
}

/// A board given by the list of its pins.
pub struct PinMap {
    pub pins: Vec<Pin>,
    pub board_name: &'static str,
}

impl BoardPinMap for PinMap {
    open spec fn spec_pins(&self) -> Seq<Pin> {
        self.pins@
    }

    fn pin_for_function(&self, function_name: &str) -> (r: Option<Pin>) {
        let mut i: usize = 0;
        assert(self.pins@.skip(0) =~= self.pins@);
        while i < self.pins.len()
            invariant
                i <= self.pins.len(),
                first_pin(self.pins@, function_name@) == first_pin(
                    self.pins@.skip(i as int),
                    function_name@,
                ),
            decreases self.pins.len() - i,
        {
            proof {
                assert(self.pins@.skip(i as int)[0] == self.pins@[i as int]);
                assert(self.pins@.skip(i as int).drop_first() =~= self.pins@.skip(i + 1));
            }
            if str_eq(self.pins[i].function_name, function_name) {
                return Some(self.pins[i]);
            }
            i += 1;
        }
        None
    }

    fn get_all_pins(&self) -> (r: Vec<Pin>) {
        let mut out: Vec<Pin> = Vec::new();
        let mut i: usize = 0;
        while i < self.pins.len()
            invariant
                i <= self.pins.len(),
                out@ == self.pins@.take(i as int),
            decreases self.pins.len() - i,
        {
            out.push(self.pins[i]);
            assert(out@ =~= self.pins@.take(i + 1));
            i += 1;
        }
        assert(self.pins@.take(self.pins.len() as int) =~= self.pins@);
        out
    }

    fn get_board_name(&self) -> (r: &'static str)
        ensures
            r == self.board_name,
    {
        self.board_name
    }
}

/// What is said when a function is mapped to a pin of another use than
/// the one asked for.
pub open spec fn mismatch_message(function_name: Seq<char>, pin: Pin, wanted: PinType) -> Seq<
    char,
> {
    "Function '"@ + function_name + "' is mapped to pin GPIO"@ + decimal_text(pin.gpio_pin as int)
        + " with type "@ + pin.pin_type.spec_label() + ", not "@ + wanted.spec_label() + "."@
}

/// What comes of asking `pins` for the pin that serves `function_name` in
/// the use `wanted`.
pub open spec fn pin_in_use(pins: Seq<Pin>, function_name: Seq<char>, wanted: PinType) -> Result<
    Pin,
    Seq<char>,
> {
    match first_pin(pins, function_name) {
        None => Err(function_name),
        Some(pin) => if pin.pin_type.same(wanted) {
            Ok(pin)
        } else {
            Err(mismatch_message(function_name, pin, wanted))
        },
    }
}

/// The pin of `map` that serves `function_name`, which must be of the use
/// `wanted`. A function that no pin serves is not found; a pin of another
/// use is refused.
pub fn require_pin<M: BoardPinMap>(map: &M, function_name: &str, wanted: PinType) -> (r: Result<
    Pin,
    BoardError,
>)
    ensures
        match r {
            Ok(pin) => pin_in_use(map.spec_pins(), function_name@, wanted) == Ok::<
                Pin,
                Seq<char>,
            >(pin),
            Err(BoardError::PinNotFound(name)) => {
                &&& first_pin(map.spec_pins(), function_name@) is None
                &&& name@ == function_name@
            },
            Err(BoardError::InvalidPinType(message)) => {
                &&& first_pin(map.spec_pins(), function_name@) is Some
                &&& pin_in_use(map.spec_pins(), function_name@, wanted) == Err::<Pin, Seq<char>>(
                    message@,
                )
            },
            Err(_) => false,
        },
{
    match map.pin_for_function(function_name) {
        None => Err(BoardError::PinNotFound(function_name.to_owned())),
        Some(pin) => {
            if pin.pin_type.is(&wanted) {
                Ok(pin)
            } else {
                let mut message = "Function '".to_owned();
                message.append(function_name);
                message.append("' is mapped to pin GPIO");
                message.append(format_i64(pin.gpio_pin as i64).as_str());
                message.append(" with type ");
                message.append(pin.pin_type.label().as_str());
                message.append(", not ");
                message.append(wanted.label().as_str());
                message.append(".");
                Err(BoardError::InvalidPinType(message))
            }
        },
    }
}

/// An output pin of the stand-in platform. It takes every level.
#[derive(Debug)]
pub struct DummyOutputPin {
    pub pin_num: u8,
}

impl DummyOutputPin {
    pub fn set_low(&mut self) -> (r: Result<(), DummyHalError>)
        ensures
            r is Ok,
            *final(self) == *old(self),
    {
        Ok(())
    }

    pub fn set_high(&mut self) -> (r: Result<(), DummyHalError>)
        ensures
            r is Ok,
            *final(self) == *old(self),
    {
        Ok(())
    }
}

/// An input pin of the stand-in platform. It always reads low.
#[derive(Debug)]
pub struct DummyInputPin {
    pub pin_num: u8,
}

impl DummyInputPin {
    pub fn is_high(&self) -> (r: Result<bool, DummyHalError>)
        ensures
            r == Ok::<bool, DummyHalError>(false),
    {
        Ok(false)
    }

    pub fn is_low(&self) -> (r: Result<bool, DummyHalError>)
        ensures
            r == Ok::<bool, DummyHalError>(true),
    {
        Ok(true)
    }
}

/// A PWM pin of the stand-in platform. It remembers its duty.
#[derive(Debug)]
pub struct DummyPwmPin {
    pub pin_num: u8,
    pub duty: u16,
    pub max_duty: u16,
}

impl DummyPwmPin {
    pub fn disable(&mut self)
        ensures
            *final(self) == *old(self),
    {
    }

    pub fn enable(&mut self)
        ensures
            *final(self) == *old(self),
    {
    }

    pub fn get_duty(&self) -> (r: u16)
        ensures
            r == self.duty,
    {
        self.duty
    }

    pub fn get_max_duty(&self) -> (r: u16)
        ensures
            r == self.max_duty,
    {
        self.max_duty
    }

    pub fn set_duty(&mut self, duty: u16)
        ensures
            final(self).duty == duty,
            final(self).pin_num == old(self).pin_num,
            final(self).max_duty == old(self).max_duty,
    {
        self.duty = duty;
    }
}

/// A platform without hardware, for trying things out: every pin can be
/// set up, outputs take every level, inputs read low.
pub struct DummyHal;

impl DummyHal {
    pub fn setup_pin_output(&self, gpio_pin_num: u8) -> (r: Result<DummyOutputPin, BoardError>)
        ensures
            r matches Ok(pin) && pin.pin_num == gpio_pin_num,
    {
        Ok(DummyOutputPin { pin_num: gpio_pin_num })
    }

    pub fn set_pin_state(&self, pin: &mut DummyOutputPin, state: HalPinState) -> (r: Result<
        (),
        BoardError,
    >)
        ensures
            r is Ok,
            *final(pin) == *old(pin),
    {
        let done = match state {
            HalPinState::High => pin.set_high(),
            HalPinState::Low => pin.set_low(),
        };
        match done {
            Ok(_) => Ok(()),
            Err(_) => Err(BoardError::HalError("Dummy HAL error".to_owned())),
        }
    }

    pub fn setup_pin_input(&self, gpio_pin_num: u8) -> (r: Result<DummyInputPin, BoardError>)
        ensures
            r matches Ok(pin) && pin.pin_num == gpio_pin_num,
    {
        Ok(DummyInputPin { pin_num: gpio_pin_num })
    }

    pub fn read_pin_state(&self, pin: &DummyInputPin) -> (r: Result<HalPinState, BoardError>)
        ensures
            r matches Ok(state) && state == HalPinState::Low,
    {
        match pin.is_low() {
            Ok(low) => if low {
                Ok(HalPinState::Low)
            } else {
                Ok(HalPinState::High)
            },
            Err(_) => Err(BoardError::HalError("Dummy HAL error".to_owned())),
        }
    }

    pub fn setup_pwm_pin(&self, gpio_pin_num: u8) -> (r: Result<DummyPwmPin, BoardError>)
        ensures
            r matches Ok(pin) && pin.pin_num == gpio_pin_num && pin.duty == 0 && pin.max_duty
                == 1000,
    {
        Ok(DummyPwmPin { pin_num: gpio_pin_num, duty: 0, max_duty: 1000 })
    }

    pub fn cleanup(&self) {
    }
}

} // verus!
