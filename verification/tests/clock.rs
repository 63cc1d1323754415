use streamasm::error::ErrorKind;
use streamasm::parser::state::clock::Clock;

const COUNTER_CLOCK: &str = r#"pub struct ClockCounterClock {}
impl ClockCounterClock {
    const fn to_moment(rep: u32) -> ClockMoment<u32> {
        ClockMoment::Quantity(rep)
    }
    const fn represents() -> &'static str {
        "QUANTITY"
    }
}
impl ClockLike for ClockCounterClock {
    type MomentRep = u32;
    fn represents(&self) -> &str {
        <ClockCounterClock>::represents()
    }
    fn to_moment(rep: u32) -> ClockMoment<u32> {
        <ClockCounterClock>::to_moment(rep)
    }
}
impl AddableClockLike<u32> for ClockCounterClock {}
"#;

fn counter_clock() -> Clock {
    let mut c = Clock::new("CounterClock".to_string());
    c.process_command("t.sasm", 1, "set_moment_type", &["u32"]).unwrap();
    c.process_command("t.sasm", 2, "set_clock_repr", &["QUANTITY"]).unwrap();
    c
}

#[test]
fn clock_emission() {
    let c = counter_clock();
    assert_eq!(c.name(), "CounterClock");
    assert_eq!(c.generate().unwrap(), COUNTER_CLOCK);
    assert_eq!(c.generate().unwrap(), counter_clock().generate().unwrap());
}

#[test]
fn the_tag_is_returned_as_written_and_wrapped_in_its_variant() {
    let mut c = Clock::new("wall".to_string());
    c.process_command("t.sasm", 1, "set_clock_repr", &["UNIX_SECONDS"]).unwrap();
    c.process_command("t.sasm", 2, "set_moment_type", &["u64"]).unwrap();
    let code = c.generate().unwrap();
    assert!(code.starts_with("pub struct ClockWall {}\nimpl ClockWall {\n"));
    assert!(code.contains("        ClockMoment::UnixSeconds(rep)\n"));
    assert!(code.contains(
        "    const fn represents() -> &'static str {\n        \"UNIX_SECONDS\"\n    }\n"
    ));
    assert!(code.ends_with("impl AddableClockLike<u64> for ClockWall {}\n"));
}

#[test]
fn missing_clock_settings_are_reported() {
    let c = Clock::new("C".to_string());
    let f = c.generate().unwrap_err();
    assert_eq!(f.kind, ErrorKind::MissingField);
    assert_eq!(f.message, "Never called set_clock_repr on Clock (C)");

    let mut c = Clock::new("C".to_string());
    c.process_command("t.sasm", 1, "set_clock_repr", &["QUANTITY"]).unwrap();
    let f = c.generate().unwrap_err();
    assert_eq!(f.kind, ErrorKind::MissingField);
    assert_eq!(f.message, "Never called set_moment_type on Clock (C)");

    let mut c = Clock::new("C".to_string());
    c.process_command("t.sasm", 1, "set_moment_type", &["u32"]).unwrap();
    let f = c.generate().unwrap_err();
    assert_eq!(f.kind, ErrorKind::MissingField);
    assert_eq!(f.message, "Never called set_clock_repr on Clock (C)");
}

#[test]
fn clock_settings_are_given_once() {
    let mut c = counter_clock();
    let e = c.process_command("t.sasm", 3, "set_moment_type", &["u64"]).unwrap_err();
    assert_eq!(e.kind, ErrorKind::DuplicateName);
    assert_eq!(e.line, 3);
    assert_eq!(e.message, "moment type is already set for clock: CounterClock");
    let e = c.process_command("t.sasm", 4, "set_clock_repr", &["UNIX_SECONDS"]).unwrap_err();
    assert_eq!(e.kind, ErrorKind::DuplicateName);
    assert_eq!(e.message, "representation is already set for clock: CounterClock");
    assert_eq!(c.generate().unwrap(), COUNTER_CLOCK);
}

#[test]
fn clock_arguments_are_checked() {
    let mut c = Clock::new("C".to_string());
    let e = c.process_command("t.sasm", 1, "set_moment_type", &["3u"]).unwrap_err();
    assert_eq!(e.kind, ErrorKind::MalformedArgs);
    assert_eq!(e.message, "not a type: 3u");
    let e = c.process_command("t.sasm", 1, "set_clock_repr", &["UNIX SECONDS"]).unwrap_err();
    assert_eq!(e.kind, ErrorKind::MalformedArgs);
    assert_eq!(e.message, "not an identifier: UNIX SECONDS");
    let e = c.process_command("t.sasm", 1, "set_clock_repr", &["A", "B"]).unwrap_err();
    assert_eq!(e.kind, ErrorKind::MalformedArgs);
    assert_eq!(e.message, "Clock (C) - unknown command: set_clock_repr ([\"A\", \"B\"])");
    let e = c.process_command("t.sasm", 1, "set_moment_type", &[]).unwrap_err();
    assert_eq!(e.kind, ErrorKind::MalformedArgs);
    let e = c.process_command("t.sasm", 6, "def_char", &["1", "A"]).unwrap_err();
    assert_eq!(e.kind, ErrorKind::UnknownCommand);
    assert_eq!(e.message, "Clock (C) - unknown command: def_char ([\"1\", \"A\"])");
    assert_eq!(e.line, 6);
    assert_eq!(e.filename, "t.sasm");
}
