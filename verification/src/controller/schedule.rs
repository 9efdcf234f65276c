//! The schedule of the relays: which relay is switched when, and for how
//! many seconds the grill then stays as it is. The one who runs the
//! schedule switches the relays of a step, then lets its seconds pass one
//! by one, and may stop between any two of them.

use vstd::prelude::*;
use crate::boards::HalPinState;
use crate::controller::ControllerType;
use crate::controller::pmode::on_off_times;

verus! {

/// The relay of the fan.
pub const RELAY_FAN: &'static str = "RELAY_FAN";

/// The relay of the igniter.
pub const RELAY_IGN: &'static str = "RELAY_IGN";

/// The relay of the auger.
pub const RELAY_AUG: &'static str = "RELAY_AUG";

/// Which relays are on.
#[derive(Clone, Copy, Debug, PartialEq, Eq, Structural)]
pub struct Relays {
    pub fan: bool,
    pub igniter: bool,
    pub auger: bool,
}

/// One step of the schedule.
#[derive(Debug)]
pub struct Step {
    /// The relays to switch at the start of the step, in order.
    pub switch: Vec<(&'static str, HalPinState)>,
    /// Which relays are on during the step.
    pub relays: Relays,
    /// How many seconds the step lasts.
    pub seconds: u64,
}

/// A step as contracts see it.
#[verifier::ext_equal]
pub struct StepSpec {
    pub switch: Seq<(Seq<char>, HalPinState)>,
    pub relays: Relays,
    pub seconds: int,
}

impl View for Step {
    type V = StepSpec;

    open spec fn view(&self) -> StepSpec {
        StepSpec {
            switch: self.switch@.map_values(|s: (&'static str, HalPinState)| (s.0@, s.1)),
            relays: self.relays,
            seconds: self.seconds as int,
        }
    }
}

/// How the grill is lit: fan and igniter on for five seconds, then the
/// igniter off for two.
pub open spec fn startup_steps() -> Seq<StepSpec> {
    seq![
        StepSpec {
            switch: seq![(RELAY_FAN@, HalPinState::High), (RELAY_IGN@, HalPinState::High)],
            relays: Relays { fan: true, igniter: true, auger: false },
            seconds: 5,
        },
        StepSpec {
            switch: seq![(RELAY_IGN@, HalPinState::Low)],
            relays: Relays { fan: true, igniter: false, auger: false },
            seconds: 2,
        },
    ]
}

/// One cycle of the auger: on for `on_time` seconds, then off for
/// `off_time` seconds, the fan running throughout.
pub open spec fn cycle_steps(on_time: int, off_time: int) -> Seq<StepSpec> {
    seq![
        StepSpec {
            switch: seq![(RELAY_AUG@, HalPinState::High)],
            relays: Relays { fan: true, igniter: false, auger: true },
            seconds: on_time,
        },
        StepSpec {
            switch: seq![(RELAY_AUG@, HalPinState::Low)],
            relays: Relays { fan: true, igniter: false, auger: false },
            seconds: off_time,
        },
    ]
}

/// The steps of a list as contracts see them.
pub open spec fn steps_view(steps: Seq<Step>) -> Seq<StepSpec> {
    steps.map_values(|s: Step| s@)
}

/// The steps that light the grill.
pub fn startup_schedule() -> (r: Vec<Step>)
    ensures
        steps_view(r@) == startup_steps(),
{
    let r = vec![
        Step {
            switch: vec![(RELAY_FAN, HalPinState::High), (RELAY_IGN, HalPinState::High)],
            relays: Relays { fan: true, igniter: true, auger: false },
            seconds: 5,
        },
        Step {
            switch: vec![(RELAY_IGN, HalPinState::Low)],
            relays: Relays { fan: true, igniter: false, auger: false },
            seconds: 2,
        },
    ];
    assert(steps_view(r@) =~~= startup_steps());
    r
}

/// The steps of one cycle of the auger.
pub fn cycle_schedule(on_time: u64, off_time: u64) -> (r: Vec<Step>)
    ensures
        steps_view(r@) == cycle_steps(on_time as int, off_time as int),
{
    let r = vec![
        Step {
            switch: vec![(RELAY_AUG, HalPinState::High)],
            relays: Relays { fan: true, igniter: false, auger: true },
            seconds: on_time,
        },
        Step {
            switch: vec![(RELAY_AUG, HalPinState::Low)],
            relays: Relays { fan: true, igniter: false, auger: false },
            seconds: off_time,
        },
    ];
    assert(steps_view(r@) =~~= cycle_steps(on_time as int, off_time as int));
    r
}

impl ControllerType {
    /// Seconds on and seconds off of one auger cycle of `cycle_length`
    /// seconds. The timed mode fixes both by itself. Under the PID law the
    /// auger is on for `share` seconds, the part of the cycle that the law's
    /// output asks for, and off for the rest of the cycle.
    pub open spec fn spec_cycle_times(&self, cycle_length: u64, share: u64) -> Option<(int, int)> {
        match self {
            ControllerType::PMode(c) => if cycle_length + c.p_mode * 10 <= u64::MAX {
                Some(on_off_times(c.p_mode, cycle_length))
            } else {
                None
            },
            ControllerType::PID(_) => if share <= cycle_length {
                Some((share as int, cycle_length - share))
            } else {
                None
            },
        }
    }

    /// Seconds on and seconds off of one auger cycle, or `None` where they
    /// do not fit: an off time beyond 64 bits, or a share longer than the
    /// cycle.
    pub fn cycle_times(&self, cycle_length: u64, share: u64) -> (r: Option<(u64, u64)>)
        ensures
            match r {
                Some(t) => self.spec_cycle_times(cycle_length, share) == Some(
                    (t.0 as int, t.1 as int),
                ),
                None => self.spec_cycle_times(cycle_length, share) is None,
            },
    {
        match self {
            ControllerType::PMode(c) => c.checked_on_off_times(cycle_length),
            ControllerType::PID(_) => if share <= cycle_length {
                Some((share, cycle_length - share))
            } else {
                None
            },
        }
    }
}

} // verus!
