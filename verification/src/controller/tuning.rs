//! A PID loop as the configuration document describes it, and the gains
//! that follow from its band and times.

use vstd::prelude::*;
use vstd::string::*;
use crate::controller::document::{
    Json, get_member, get_number, member_at, number_at, parsed_document, text_at,
};

verus! {

/// Proportional band, integral time and derivative time as configured.
#[derive(Clone, Copy, Debug, PartialEq, Eq, Structural)]
pub struct PIDConfig {
    pub pb: i32,
    pub ti: i32,
    pub td: i32,
}

/// Length of one cycle and the bounds of the output.
#[derive(Clone, Copy, Debug, PartialEq, Eq, Structural)]
pub struct PIDCycle {
    pub cycle_time: i32,
    pub u_min: i32,
    pub u_max: i32,
}

/// The gains of the loop.
#[derive(Clone, Copy, Debug, PartialEq, Eq, Structural)]
pub struct PIDGains {
    pub kp: i32,
    pub ki: i32,
    pub kd: i32,
}

/// A configured PID loop with its gains.
pub struct Controller {
    pub active_controller: String,
    pub config: PIDConfig,
    pub cycle: PIDCycle,
    pub gains: PIDGains,
}

/// The quotient of `a` by `b`, rounded toward zero; `b` is not 0.
pub open spec fn quotient(a: int, b: int) -> int {
    if a >= 0 {
        a / b
    } else {
        -((-a) / b)
    }
}

/// The gains that follow from `config`: the proportional gain is the band,
/// the integral gain the band divided by the integral time (0 where that
/// time is 0), the derivative gain the band times the derivative time.
pub open spec fn gains_of(config: PIDConfig) -> (int, int, int) {
    (
        config.pb as int,
        if config.ti != 0 {
            quotient(config.pb as int, config.ti as int)
        } else {
            0
        },
        config.pb * config.td,
    )
}

/// A quotient is no larger in magnitude than what was divided.
pub proof fn lemma_quotient_fits(a: int, b: int)
    requires
        b != 0,
    ensures
        a >= 0 ==> -a <= quotient(a, b) <= a,
        a < 0 ==> a <= quotient(a, b) <= -a,
        a < 0 && b != -1 ==> quotient(a, b) < -a,
{
    let x = if a >= 0 { a } else { -a };
    assert(-x <= x / b <= x) by (nonlinear_arith)
        requires
            b != 0,
            x >= 0,
    ;
    assert(x > 0 && b != -1 ==> x / b > -x) by (nonlinear_arith)
        requires
            b != 0,
            x >= 0,
    ;
}

/// The gains of `config` fit in 32 bits.
pub open spec fn gains_fit(config: PIDConfig) -> bool {
    &&& i32::MIN <= gains_of(config).1 <= i32::MAX
    &&& i32::MIN <= gains_of(config).2 <= i32::MAX
}

/// Why a configuration document gives no controller.
#[derive(Clone, Copy, Debug, PartialEq, Eq, Structural)]
pub enum ConfigError {
    /// The text is no JSON document.
    Unreadable,
    /// The document names no active controller.
    NoActiveController,
    /// A gain of the active controller does not fit in 32 bits.
    GainOutOfRange,
}

/// The name of the active controller in `document`.
pub open spec fn active_name(document: Json) -> Option<Seq<char>> {
    text_at(member_at(Some(document), "config"@), "active_controller"@)
}

/// The part of `document` that configures the controller `name`.
pub open spec fn controller_part(document: Json, name: Seq<char>) -> Option<Json> {
    member_at(member_at(member_at(Some(document), "config"@), "controllers"@), name)
}

/// The band and times that `part` configures; what is missing or no
/// integer counts as 0.
pub open spec fn config_of(part: Option<Json>) -> PIDConfig {
    PIDConfig { pb: number_at(part, "pb"@), ti: number_at(part, "ti"@), td: number_at(part, "td"@) }
}

/// The cycle that `part` configures; what is missing or no integer counts
/// as 0.
pub open spec fn cycle_of(part: Option<Json>) -> PIDCycle {
    PIDCycle {
        cycle_time: number_at(part, "cycle_time"@),
        u_min: number_at(part, "u_min"@),
        u_max: number_at(part, "u_max"@),
    }
}

/// What `document` gives: the active controller by name, with its band and
/// times, its cycle, and the gains that follow.
pub open spec fn described(document: Json, c: Controller) -> bool {
    &&& active_name(document) == Some(c.active_controller@)
    &&& c.config == config_of(controller_part(document, c.active_controller@))
    &&& c.cycle == cycle_of(controller_part(document, c.active_controller@))
    &&& gains_fit(c.config)
    &&& (c.gains.kp as int, c.gains.ki as int, c.gains.kd as int) == gains_of(c.config)
}

impl Controller {
    /// The controller that `document` describes. A document without the
    /// name of an active controller gives none, and neither does one whose
    /// gains do not fit in 32 bits.
    pub fn from_document(document: &Json) -> (r: Result<Controller, ConfigError>)
        ensures
            match r {
                Ok(c) => described(*document, c),
                Err(ConfigError::NoActiveController) => active_name(*document) is None,
                Err(ConfigError::GainOutOfRange) => {
                    &&& active_name(*document) matches Some(name)
                    &&& !gains_fit(config_of(controller_part(*document, name)))
                },
                Err(ConfigError::Unreadable) => false,
            },
    {
        let settings = document.member("config");
        let active = match get_member(settings, "active_controller") {
            Some(name) => match name.as_str() {
                Some(text) => text.to_owned(),
                None => {
                    return Err(ConfigError::NoActiveController);
                },
            },
            None => {
                return Err(ConfigError::NoActiveController);
            },
        };
        let part = get_member(get_member(settings, "controllers"), active.as_str());
        let config = PIDConfig {
            pb: get_number(part, "pb"),
            ti: get_number(part, "ti"),
            td: get_number(part, "td"),
        };
        let cycle = PIDCycle {
            cycle_time: get_number(part, "cycle_time"),
            u_min: get_number(part, "u_min"),
            u_max: get_number(part, "u_max"),
        };
        match Self::checked_gains(&config) {
            Some(gains) => Ok(Controller { active_controller: active, config, cycle, gains }),
            None => Err(ConfigError::GainOutOfRange),
        }
    }

    /// The controller that the configuration text describes.
    pub fn load(text: &str) -> (r: Result<Controller, ConfigError>)
        ensures
            match r {
                Ok(c) => parsed_document(text@) matches Some(document) && described(document, c),
                Err(ConfigError::Unreadable) => parsed_document(text@) is None,
                Err(ConfigError::NoActiveController) => parsed_document(text@) matches Some(
                    document,
                ) && active_name(document) is None,
                Err(ConfigError::GainOutOfRange) => {
                    &&& parsed_document(text@) matches Some(document)
                    &&& active_name(document) matches Some(name)
                    &&& !gains_fit(config_of(controller_part(document, name)))
                },
            },
    {
        match Json::parse(text) {
            Some(document) => Self::from_document(&document),
            None => Err(ConfigError::Unreadable),
        }
    }

    pub fn new(active_controller: String, config: PIDConfig, cycle: PIDCycle, gains: PIDGains) -> (r:
        Self)
        ensures
            r.active_controller == active_controller,
            r.config == config,
            r.cycle == cycle,
            r.gains == gains,
    {
        Controller { active_controller, config, cycle, gains }
    }

    /// The gains that follow from `config`. They must fit in 32 bits.
    pub fn calculate_gains(config: &PIDConfig) -> (r: PIDGains)
        requires
            gains_fit(*config),
        ensures
            (r.kp as int, r.ki as int, r.kd as int) == gains_of(*config),
    {
        let kp = config.pb;
        assert(config.ti == -1 ==> gains_of(*config).1 == -config.pb) by (nonlinear_arith)
            requires
                gains_of(*config).1 == quotient(config.pb as int, config.ti as int) || config.ti == 0,
        ;
        let ki = if config.ti != 0 { kp / config.ti } else { 0 };
        let kd = kp * config.td;
        PIDGains { kp, ki, kd }
    }

    /// As `calculate_gains`, or `None` where a gain does not fit in 32 bits.
    pub fn checked_gains(config: &PIDConfig) -> (r: Option<PIDGains>)
        ensures
            match r {
                Some(g) => (g.kp as int, g.ki as int, g.kd as int) == gains_of(*config),
                None => !gains_fit(*config),
            },
    {
        assert(-4611686018427387904 <= config.pb * config.td <= 4611686018427387904)
            by (nonlinear_arith)
            requires
                -2147483648 <= config.pb <= 2147483647,
                -2147483648 <= config.td <= 2147483647,
        ;
        let wide: i64 = (config.pb as i64) * (config.td as i64);
        if wide < -2147483648 || wide > 2147483647 {
            return None;
        }
        if config.ti == -1 && config.pb == -2147483648 {
            assert(2147483648int / -1 == -2147483648) by (nonlinear_arith);
            return None;
        }
        proof {
            if config.ti != 0 {
                lemma_quotient_fits(config.pb as int, config.ti as int);
            }
        }
        Some(Self::calculate_gains(config))
    }

    /// The output of the loop. No law is wired in yet: the output is 0.
    pub fn update(&mut self) -> (r: i32)
        ensures
            r == 0,
            *final(self) == *old(self),
    {
        0
    }
}

} // verus!
