use streamasm::error::ErrorKind;
use streamasm::literal::parse_literal;

#[test]
fn decimal_literals_are_accepted() {
    let l = parse_literal("65").unwrap();
    assert_eq!(l.text(), "65");
    assert_eq!(l.value(), 65);
    let l = parse_literal("0").unwrap();
    assert_eq!(l.value(), 0);
    let l = parse_literal("007").unwrap();
    assert_eq!(l.text(), "007");
    assert_eq!(l.value(), 7);
}

#[test]
fn hexadecimal_literals_are_accepted() {
    let l = parse_literal("0x41").unwrap();
    assert_eq!(l.text(), "0x41");
    assert_eq!(l.value(), 0x41);
    assert_eq!(parse_literal("0xA").unwrap().value(), 10);
    assert_eq!(parse_literal("0xff").unwrap().value(), 255);
    assert_eq!(parse_literal("0xFf").unwrap().value(), 255);
    assert_eq!(parse_literal("0x50").unwrap().value(), 80);
    assert_eq!(parse_literal("0x0").unwrap().value(), 0);
    assert_eq!(parse_literal("0x7F").unwrap().value(), 127);
}

#[test]
fn empty_and_malformed_literals_are_refused() {
    for s in ["", "0x", "x41", "0X41", "12a", "0x4G", "-1", "+1", " 1", "1 ", "1.5", "Time(A)", "0x 1", "1_000"] {
        let f = parse_literal(s).unwrap_err();
        assert_eq!(f.kind, ErrorKind::MalformedLiteral);
        assert_eq!(f.message, format!("malformed literal: {}", s));
    }
}

#[test]
fn a_leading_zero_before_x_is_needed_once() {
    assert!(parse_literal("00x1").is_err());
    assert!(parse_literal("0x0x1").is_err());
}

#[test]
fn the_widest_integer_bounds_a_literal() {
    let max = format!("{}", u128::MAX);
    assert_eq!(parse_literal(&max).unwrap().value(), u128::MAX);
    assert_eq!(
        parse_literal("0xffffffffffffffffffffffffffffffff").unwrap().value(),
        u128::MAX
    );
    // one more than the largest value
    let f = parse_literal("340282366920938463463374607431768211456").unwrap_err();
    assert_eq!(f.kind, ErrorKind::MalformedLiteral);
    let f = parse_literal("0x100000000000000000000000000000000").unwrap_err();
    assert_eq!(f.kind, ErrorKind::MalformedLiteral);
    // leading zeros do not count
    assert_eq!(
        parse_literal("0x000000000000000000000000000000000000000000ff").unwrap().value(),
        255
    );
    // far too long
    assert!(parse_literal("99999999999999999999999999999999999999999999999999999").is_err());
}
