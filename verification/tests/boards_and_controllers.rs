use pidpro::boards::hal::esp32_hal::EspIdfHal;
use pidpro::boards::{
    esp32, orangepi, pfpwm, require_pin, BoardError, BoardPinMap, DummyHal, DummyHalError,
    HalPinState, Pin, PinMap, PinType,
};
use pidpro::controller::document::Json;
use pidpro::controller::pid::PidController;
use pidpro::controller::pmode::PModeController;
use pidpro::controller::schedule::{cycle_schedule, startup_schedule, Relays};
use pidpro::controller::tuning::{ConfigError, Controller, PIDConfig, PIDCycle, PIDGains};
use pidpro::controller::ControllerType;
use pidpro::database::sql::SqlDbManager;

#[test]
fn the_header_of_the_pifire_board() {
    let header = pfpwm::physical_pin_map();
    assert_eq!(header.len(), 28);
    assert_eq!(header[0], (3, 2, "I2C_SDA"));
    assert_eq!(header[14], (23, 11, "SPI_SCK"));
    assert_eq!(header[27], (40, 21, "ROTARY_SW"));
    assert_eq!(header[7], (13, 27, "TACH"));
    let pins = pfpwm::pin_map();
    assert_eq!(pins.len(), 28);
    for (place, gpio, function) in header {
        let pin = &pins[gpio as usize];
        assert_eq!(pin.gpio_pin, gpio);
        assert_eq!(pin.physical_pin, Some(place));
        if gpio != 11 {
            assert_eq!(pin.function_name, function);
        }
    }
    assert_eq!(pins[11].function_name, "SPI_SCLK");
    assert_eq!(pfpwm::BOARD_NAME, "PiFire PWM Board (Raspberry Pi, RpiPfpwmPinMap)");
}

#[test]
fn pins_by_function() {
    let map = PinMap { pins: pfpwm::pin_map(), board_name: pfpwm::BOARD_NAME };
    let fan = map.pin_for_function("RELAY_FAN").unwrap();
    assert_eq!(fan.gpio_pin, 15);
    assert_eq!(fan.pin_type, PinType::GpioOutput);
    assert_eq!(fan.physical_pin, Some(10));
    assert_eq!(map.pin_for_function("").unwrap().gpio_pin, 0);
    assert!(map.pin_for_function("RELAY_NONE").is_none());
    assert!(map.pin_for_function("relay_fan").is_none());
    assert_eq!(map.get_all_pins().len(), 28);
    assert_eq!(map.get_board_name(), "PiFire PWM Board (Raspberry Pi, RpiPfpwmPinMap)");

    let esp = PinMap { pins: esp32::pin_map(), board_name: esp32::BOARD_NAME };
    assert_eq!(esp.get_all_pins().len(), 40);
    assert_eq!(esp.pin_for_function("RELAY_FAN").unwrap().gpio_pin, 2);
    assert_eq!(esp.pin_for_function("PWM_FAN").unwrap().pin_type, PinType::Pwm);
    assert_eq!(esp.pin_for_function("GND_1").unwrap().pin_type, PinType::Other("POWER"));
    assert_ne!(esp.pin_for_function("GND_1").unwrap().pin_type, PinType::Other("FLASH"));
    assert_eq!(esp.get_board_name(), "ESP32 Dev Board (Esp32EspressifPinMap)");

    let opi = PinMap { pins: orangepi::pin_map(), board_name: orangepi::BOARD_NAME };
    assert_eq!(opi.get_all_pins().len(), 16);
    assert_eq!(opi.pin_for_function("RELAY_AUG").unwrap().gpio_pin, 7);
    assert_eq!(opi.get_board_name(), "Orange Pi Zero 2 (OpiZeroPinMap)");

    let twice = PinMap {
        pins: vec![
            Pin { gpio_pin: 1, function_name: "A", pin_type: PinType::Pwm, physical_pin: None },
            Pin { gpio_pin: 2, function_name: "A", pin_type: PinType::GpioInput, physical_pin: None },
        ],
        board_name: "twice",
    };
    assert_eq!(twice.pin_for_function("A").unwrap().gpio_pin, 1);
}

#[test]
fn a_pin_must_be_of_the_use_asked_for() {
    let map = PinMap { pins: esp32::pin_map(), board_name: esp32::BOARD_NAME };
    let pin = require_pin(&map, "RELAY_AUG", PinType::GpioOutput).unwrap();
    assert_eq!(pin.gpio_pin, 4);
    match require_pin(&map, "RELAY_NOPE", PinType::GpioOutput) {
        Err(BoardError::PinNotFound(name)) => assert_eq!(name, "RELAY_NOPE"),
        other => panic!("unexpected: {:?}", other),
    }
    match require_pin(&map, "PWM_FAN", PinType::GpioOutput) {
        Err(BoardError::InvalidPinType(message)) => assert_eq!(
            message,
            "Function 'PWM_FAN' is mapped to pin GPIO18 with type Pwm, not GpioOutput."
        ),
        other => panic!("unexpected: {:?}", other),
    }
    match require_pin(&map, "GND_2", PinType::GpioInput) {
        Err(BoardError::InvalidPinType(message)) => assert_eq!(
            message,
            format!(
                "Function '{}' is mapped to pin GPIO{} with type {:?}, not GpioInput.",
                "GND_2",
                101,
                PinType::Other("POWER")
            )
        ),
        other => panic!("unexpected: {:?}", other),
    }
    assert_eq!(PinType::SpiMosi.label(), format!("{:?}", PinType::SpiMosi));
    assert_eq!(PinType::Unassigned.label(), "Unassigned");
    assert!(PinType::Other("A").is(&PinType::Other("A")));
    assert!(!PinType::Other("A").is(&PinType::Other("B")));
    assert!(!PinType::Other("Pwm").is(&PinType::Pwm));
}

#[test]
fn the_stand_in_platform() {
    let hal = DummyHal;
    let mut out = hal.setup_pin_output(14).unwrap();
    assert_eq!(out.pin_num, 14);
    assert!(hal.set_pin_state(&mut out, HalPinState::High).is_ok());
    assert!(hal.set_pin_state(&mut out, HalPinState::Low).is_ok());
    assert!(out.set_high().is_ok());
    assert!(out.set_low().is_ok());
    let input = hal.setup_pin_input(17).unwrap();
    assert_eq!(input.pin_num, 17);
    assert_eq!(hal.read_pin_state(&input).unwrap(), HalPinState::Low);
    assert_eq!(input.is_high().unwrap(), false);
    assert_eq!(input.is_low().unwrap(), true);
    let mut pwm = hal.setup_pwm_pin(13).unwrap();
    assert_eq!((pwm.pin_num, pwm.get_duty(), pwm.get_max_duty()), (13, 0, 1000));
    pwm.set_duty(250);
    assert_eq!(pwm.get_duty(), 250);
    pwm.enable();
    pwm.disable();
    assert_eq!((pwm.pin_num, pwm.get_duty(), pwm.get_max_duty()), (13, 250, 1000));
    hal.cleanup();
    assert_eq!(DummyHalError("stuck".to_string()).message(), "DummyHalError: stuck");
    assert!(EspIdfHal::new().is_ok());
}

#[test]
fn timed_mode() {
    assert_eq!(PModeController::new(4).p_mode, 4);
    assert_eq!(PModeController::new(4).get_on_off_times(15), (15, 55));
    assert_eq!(PModeController::new(0).get_on_off_times(15), (15, 15));
    assert_eq!(PModeController::new(0).get_on_off_times(0), (0, 0));
    assert_eq!(PModeController::new(u32::MAX).get_on_off_times(1), (1, 42949672951));
    assert_eq!(PModeController::new(1).get_on_off_times(u64::MAX - 10), (u64::MAX - 10, u64::MAX));
    assert_eq!(PModeController::new(1).checked_on_off_times(u64::MAX - 10), Some((u64::MAX - 10, u64::MAX)));
    assert_eq!(PModeController::new(1).checked_on_off_times(u64::MAX - 9), None);
    assert_eq!(PModeController::new(4).checked_on_off_times(15), Some((15, 55)));
    let timed = ControllerType::PMode(PModeController::new(2));
    assert_eq!(timed.cycle_times(20, 7), Some((20, 40)));
    assert_eq!(timed.cycle_times(u64::MAX, 0), None);
    let pid = ControllerType::PID(PidController::new());
    assert_eq!(pid.cycle_times(20, 7), Some((7, 13)));
    assert_eq!(pid.cycle_times(20, 20), Some((20, 0)));
    assert_eq!(pid.cycle_times(20, 0), Some((0, 20)));
    assert_eq!(pid.cycle_times(20, 21), None);
}

#[test]
fn the_schedule_of_the_relays() {
    let startup = startup_schedule();
    assert_eq!(startup.len(), 2);
    assert_eq!(startup[0].switch, vec![("RELAY_FAN", HalPinState::High), ("RELAY_IGN", HalPinState::High)]);
    assert_eq!(startup[0].relays, Relays { fan: true, igniter: true, auger: false });
    assert_eq!(startup[0].seconds, 5);
    assert_eq!(startup[1].switch, vec![("RELAY_IGN", HalPinState::Low)]);
    assert_eq!(startup[1].relays, Relays { fan: true, igniter: false, auger: false });
    assert_eq!(startup[1].seconds, 2);
    let cycle = cycle_schedule(15, 55);
    assert_eq!(cycle.len(), 2);
    assert_eq!(cycle[0].switch, vec![("RELAY_AUG", HalPinState::High)]);
    assert_eq!(cycle[0].relays, Relays { fan: true, igniter: false, auger: true });
    assert_eq!(cycle[0].seconds, 15);
    assert_eq!(cycle[1].switch, vec![("RELAY_AUG", HalPinState::Low)]);
    assert_eq!(cycle[1].relays, Relays { fan: true, igniter: false, auger: false });
    assert_eq!(cycle[1].seconds, 55);
}

#[test]
fn gains() {
    let gains = Controller::calculate_gains(&PIDConfig { pb: 65, ti: 180, td: 45 });
    assert_eq!(gains, PIDGains { kp: 65, ki: 0, kd: 2925 });
    assert_eq!(Controller::calculate_gains(&PIDConfig { pb: 7, ti: 2, td: 1 }), PIDGains { kp: 7, ki: 3, kd: 7 });
    assert_eq!(Controller::calculate_gains(&PIDConfig { pb: -7, ti: 2, td: 1 }), PIDGains { kp: -7, ki: -3, kd: -7 });
    assert_eq!(Controller::calculate_gains(&PIDConfig { pb: 7, ti: -2, td: -1 }), PIDGains { kp: 7, ki: -3, kd: -7 });
    assert_eq!(Controller::calculate_gains(&PIDConfig { pb: -7, ti: -2, td: 0 }), PIDGains { kp: -7, ki: 3, kd: 0 });
    assert_eq!(Controller::calculate_gains(&PIDConfig { pb: 7, ti: 0, td: 3 }), PIDGains { kp: 7, ki: 0, kd: 21 });
    assert_eq!(Controller::checked_gains(&PIDConfig { pb: 7, ti: 2, td: 1 }), Some(PIDGains { kp: 7, ki: 3, kd: 7 }));
    assert_eq!(Controller::checked_gains(&PIDConfig { pb: 65536, ti: 1, td: 32768 }), None);
    assert_eq!(Controller::checked_gains(&PIDConfig { pb: 65536, ti: 1, td: 32767 }), Some(PIDGains { kp: 65536, ki: 65536, kd: 2147418112 }));
    assert_eq!(Controller::checked_gains(&PIDConfig { pb: i32::MIN, ti: -1, td: 0 }), None);
    assert_eq!(Controller::checked_gains(&PIDConfig { pb: i32::MIN, ti: 1, td: 1 }), Some(PIDGains { kp: i32::MIN, ki: i32::MIN, kd: i32::MIN }));
    assert_eq!(Controller::checked_gains(&PIDConfig { pb: i32::MIN, ti: 0, td: -1 }), None);
    let mut c = Controller::new(
        "pid".to_string(),
        PIDConfig { pb: 1, ti: 2, td: 3 },
        PIDCycle { cycle_time: 4, u_min: 5, u_max: 6 },
        PIDGains { kp: 1, ki: 0, kd: 3 },
    );
    assert_eq!(c.update(), 0);
    assert_eq!(c.active_controller, "pid");
    assert_eq!(c.cycle, PIDCycle { cycle_time: 4, u_min: 5, u_max: 6 });
}

#[test]
fn a_controller_from_its_configuration() {
    let text = r#"{"config": {"active_controller": "pid", "controllers": {
        "pid": {"pb": 60, "ti": 180, "td": 45, "cycle_time": 20, "u_min": 0.15, "u_max": 1},
        "other": {"pb": 1}
    }}}"#;
    let c = Controller::load(text).unwrap();
    assert_eq!(c.active_controller, "pid");
    assert_eq!(c.config, PIDConfig { pb: 60, ti: 180, td: 45 });
    assert_eq!(c.cycle, PIDCycle { cycle_time: 20, u_min: 0, u_max: 1 });
    assert_eq!(c.gains, PIDGains { kp: 60, ki: 0, kd: 2700 });

    let missing = Controller::load(r#"{"config": {"active_controller": "gone", "controllers": {}}}"#).unwrap();
    assert_eq!(missing.active_controller, "gone");
    assert_eq!(missing.config, PIDConfig { pb: 0, ti: 0, td: 0 });
    assert_eq!(missing.gains, PIDGains { kp: 0, ki: 0, kd: 0 });

    let wide = Controller::load(
        r#"{"config": {"active_controller": "a", "controllers": {"a": {"pb": 4294967301, "ti": "3", "td": 9223372036854775808}}}}"#,
    )
    .unwrap();
    assert_eq!(wide.config, PIDConfig { pb: 5, ti: 0, td: 0 });

    assert_eq!(Controller::load("not json").err(), Some(ConfigError::Unreadable));
    assert_eq!(Controller::load("").err(), Some(ConfigError::Unreadable));
    assert_eq!(Controller::load("{}").err(), Some(ConfigError::NoActiveController));
    assert_eq!(Controller::load("[1, 2]").err(), Some(ConfigError::NoActiveController));
    assert_eq!(
        Controller::load(r#"{"config": {"active_controller": 5}}"#).err(),
        Some(ConfigError::NoActiveController)
    );
    assert_eq!(
        Controller::load(
            r#"{"config": {"active_controller": "a", "controllers": {"a": {"pb": 65536, "td": 65536}}}}"#
        )
        .err(),
        Some(ConfigError::GainOutOfRange)
    );
}

#[test]
fn a_document_is_taken_over_as_it_stands() {
    let json = Json::parse(r#"{"b": [1, 2.5, "x", null, true], "a": {"k": -7}, "big": 18446744073709551615}"#).unwrap();
    assert_eq!(json.member("a").unwrap().member("k").unwrap().as_i64(), Some(-7));
    assert!(json.member("a").unwrap().member("missing").is_none());
    assert!(json.member("b").unwrap().member("k").is_none());
    assert!(json.member("missing").is_none());
    assert_eq!(json.member("b").unwrap().as_i64(), None);
    assert_eq!(json.member("b").unwrap().as_str(), None);
    match json.member("b").unwrap() {
        Json::Array(items) => {
            assert_eq!(items.len(), 5);
            assert_eq!(items[0].as_i64(), Some(1));
            assert!(matches!(&items[1], Json::Number(t) if t == "2.5"));
            assert_eq!(items[2].as_str(), Some("x"));
            assert!(matches!(items[3], Json::Null));
            assert!(matches!(items[4], Json::Bool(true)));
        }
        other => panic!("unexpected: {:?}", other),
    }
    assert!(matches!(json.member("big").unwrap(), Json::Number(t) if t == "18446744073709551615"));
    assert!(Json::parse("{").is_none());
}

#[test]
fn every_declared_setting_is_listed_once() {
    let mut db = SqlDbManager::new(":memory:").unwrap();
    db.set_setting("cycle_time", "33").unwrap();
    let all = db._get_all_settings().unwrap();
    let mut names: Vec<&str> = all.iter().map(|(k, _)| k.as_str()).collect();
    assert_eq!(names.len(), 23);
    assert_eq!(names[0], "device_name");
    assert_eq!(names[22], "Td");
    names.sort();
    names.dedup();
    assert_eq!(names.len(), 23);
    let cycle = all.iter().find(|(k, _)| k == "cycle_time").unwrap();
    assert_eq!(cycle.1.to_string(), "33");
    let enabled = all.iter().find(|(k, _)| k == "enabled").unwrap();
    assert_eq!(enabled.1.to_string(), "false");
}
