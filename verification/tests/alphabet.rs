use streamasm::error::ErrorKind;
use streamasm::parser::state::alphabet::{Alphabet, AlphabetError};

fn alphabet_a() -> Alphabet {
    let mut a = Alphabet::new("A".to_string());
    a.process_command("t.sasm", 2, "set_char_type", &["u8"]).unwrap();
    a.process_command("t.sasm", 3, "def_char", &["0x41", "A_UPPERCASE"]).unwrap();
    a
}

const ALPHABET_A: &str = r#"#[derive(Copy, Clone, Debug)]
pub enum CharA {
    AUppercase(),
}
pub struct AlphabetA {}
impl AlphabetA {
    fn char_with_name(name: &str) -> Result<CharA, AlphabetError<&str>> {
        use CharA::*;
        match name {
            "A_UPPERCASE" => Ok(AUppercase()),
            _ => Err(AlphabetError::NameNotFound()),
        }
    }
    const fn to_char(rep: u8) -> Result<CharA, AlphabetError<u8>> {
        use CharA::*;
        match rep {
            0x41 => Ok(AUppercase()),
            _ => Err(AlphabetError::UnknownCharacter(rep)),
        }
    }
    const fn to_val(chr: CharA) -> u8 {
        use CharA::*;
        match chr {
            AUppercase() => 0x41 as u8,
        }
    }
}
impl AlphabetLike for AlphabetA {
    type CharRep = u8;
    type CharEnum = CharA;
    fn char_with_name(name: &str) -> Result<CharA, AlphabetError<&str>> {
        <AlphabetA>::char_with_name(name)
    }
    fn to_char(rep: u8) -> Result<CharA, AlphabetError<u8>> {
        <AlphabetA>::to_char(rep)
    }
    fn to_val(chr: CharA) -> u8 {
        <AlphabetA>::to_val(chr)
    }
}
"#;

#[test]
fn alphabet_round_trip() {
    let a = alphabet_a();
    assert_eq!(a.name(), "A");
    assert_eq!(a.len(), 1);
    assert_eq!(a.to_char(0x41), Ok(0));
    assert_eq!(a.to_val(0), 0x41);
    assert_eq!(a.char_with_name("A_UPPERCASE"), Ok(0));
    assert_eq!(a.char_with_name("NONE"), Err(AlphabetError::NameNotFound));
    assert_eq!(a.to_char(0x42), Err(AlphabetError::UnknownCharacter(0x42)));
}

#[test]
fn alphabet_emission() {
    assert_eq!(alphabet_a().generate().unwrap(), ALPHABET_A);
}

#[test]
fn alphabet_emission_is_repeatable() {
    let a = alphabet_a();
    assert_eq!(a.generate().unwrap(), a.generate().unwrap());
    assert_eq!(alphabet_a().generate().unwrap(), a.generate().unwrap());
}

#[test]
fn names_match_exactly() {
    let a = alphabet_a();
    assert_eq!(a.char_with_name("a_uppercase"), Err(AlphabetError::NameNotFound));
    assert_eq!(a.char_with_name("AUppercase"), Err(AlphabetError::NameNotFound));
    assert_eq!(a.char_with_name(""), Err(AlphabetError::NameNotFound));
}

#[test]
fn bijection_on_a_larger_alphabet() {
    let mut a = Alphabet::new("ASCII".to_string());
    a.process_command("t", 1, "set_char_type", &["u8"]).unwrap();
    let chars = [
        ("0x0", "NULL_BYTE", 0u128),
        ("0x20", "SPACE", 32),
        ("65", "A_UPPERCASE", 65),
        ("0x7F", "DELETE", 127),
        ("0x10", "DATA_LINK_ESCAPE", 16),
    ];
    let mut line = 2;
    for (value, name, _) in chars {
        a.process_command("t", line, "def_char", &[value, name]).unwrap();
        line += 1;
    }
    assert_eq!(a.len(), 5);
    for (i, (_, name, number)) in chars.iter().enumerate() {
        let by_name = a.char_with_name(name).unwrap();
        assert_eq!(by_name, i);
        assert_eq!(a.to_val(by_name), *number);
        assert_eq!(a.to_char(*number), Ok(by_name));
        assert_eq!(a.to_char(a.to_val(i)), Ok(i));
    }
}

#[test]
fn rows_come_in_the_order_of_the_source() {
    let mut a = Alphabet::new("two".to_string());
    a.process_command("t", 1, "set_char_type", &["u16"]).unwrap();
    a.process_command("t", 2, "def_char", &["0x42", "B_UPPERCASE"]).unwrap();
    a.process_command("t", 3, "def_char", &["65", "A_UPPERCASE"]).unwrap();
    let code = a.generate().unwrap();
    assert!(code.starts_with(
        "#[derive(Copy, Clone, Debug)]\npub enum CharTwo {\n    BUppercase(),\n    AUppercase(),\n}\npub struct AlphabetTwo {}\n"
    ));
    assert!(code.contains(
        "        match name {\n            \"B_UPPERCASE\" => Ok(BUppercase()),\n            \"A_UPPERCASE\" => Ok(AUppercase()),\n            _ => Err(AlphabetError::NameNotFound()),\n"
    ));
    assert!(code.contains(
        "        match rep {\n            0x42 => Ok(BUppercase()),\n            65 => Ok(AUppercase()),\n            _ => Err(AlphabetError::UnknownCharacter(rep)),\n"
    ));
    assert!(code.contains(
        "        match chr {\n            BUppercase() => 0x42 as u16,\n            AUppercase() => 65 as u16,\n        }\n"
    ));
    assert!(code.contains("    type CharRep = u16;\n    type CharEnum = CharTwo;\n"));
}

#[test]
fn an_alphabet_without_characters_is_rendered() {
    let mut a = Alphabet::new("none".to_string());
    a.process_command("t", 1, "set_char_type", &["u8"]).unwrap();
    let code = a.generate().unwrap();
    assert!(code.starts_with("#[derive(Copy, Clone, Debug)]\npub enum CharNone {\n}\n"));
    assert!(code.contains("        match chr {\n        }\n"));
}

#[test]
fn duplicate_char_name_rejected() {
    let mut a = Alphabet::new("A".to_string());
    a.process_command("dup.sasm", 1, "set_char_type", &["u8"]).unwrap();
    a.process_command("dup.sasm", 2, "def_char", &["0x41", "A_UPPERCASE"]).unwrap();
    a.process_command("dup.sasm", 3, "def_char", &["0x42", "B_UPPERCASE"]).unwrap();
    let e = a.process_command("dup.sasm", 7, "def_char", &["0x43", "A_UPPERCASE"]).unwrap_err();
    assert_eq!(e.kind, ErrorKind::DuplicateName);
    assert_eq!(e.filename, "dup.sasm");
    assert_eq!(e.line, 7);
    assert_eq!(e.message, "character name A_UPPERCASE is already defined at line 2");
    assert_eq!(
        e.render(),
        "dup.sasm:7: character name A_UPPERCASE is already defined at line 2"
    );
    // the alphabet is as it was
    assert_eq!(a.len(), 2);
    assert_eq!(a.to_char(0x43), Err(AlphabetError::UnknownCharacter(0x43)));
}

#[test]
fn duplicate_char_value_rejected() {
    let mut a = alphabet_a();
    let e = a.process_command("t.sasm", 9, "def_char", &["0x41", "OTHER"]).unwrap_err();
    assert_eq!(e.kind, ErrorKind::DuplicateName);
    assert_eq!(e.line, 9);
    assert_eq!(e.message, "character value 0x41 is already defined at line 3");
    // another spelling of the same number is the same value
    let e = a.process_command("t.sasm", 10, "def_char", &["65", "OTHER"]).unwrap_err();
    assert_eq!(e.kind, ErrorKind::DuplicateName);
    assert_eq!(e.message, "character value 65 is already defined at line 3");
    let e = a.process_command("t.sasm", 11, "def_char", &["0x0041", "OTHER"]).unwrap_err();
    assert_eq!(e.kind, ErrorKind::DuplicateName);
    assert_eq!(a.len(), 1);
    assert_eq!(a.char_with_name("OTHER"), Err(AlphabetError::NameNotFound));
}

#[test]
fn char_type_is_set_once() {
    let mut a = alphabet_a();
    let e = a.process_command("t.sasm", 4, "set_char_type", &["u16"]).unwrap_err();
    assert_eq!(e.kind, ErrorKind::DuplicateName);
    assert_eq!(e.message, "character type is already set for alphabet: A");
    assert!(a.generate().unwrap().contains("type CharRep = u8;"));
}

#[test]
fn char_type_is_a_type_name() {
    let mut a = Alphabet::new("A".to_string());
    for t in ["", "8u", "u 8", "u8;", "Vec<u8>"] {
        let e = a.process_command("t.sasm", 1, "set_char_type", &[t]).unwrap_err();
        assert_eq!(e.kind, ErrorKind::MalformedArgs);
        assert_eq!(e.message, format!("not a type: {}", t));
    }
    assert_eq!(a.generate().unwrap_err().kind, ErrorKind::MissingField);
}

#[test]
fn missing_char_type_is_reported() {
    let mut a = Alphabet::new("ASCII".to_string());
    a.process_command("t.sasm", 1, "def_char", &["1", "ONE"]).unwrap();
    let f = a.generate().unwrap_err();
    assert_eq!(f.kind, ErrorKind::MissingField);
    assert_eq!(f.message, "Never called set_char_type on Alphabet (ASCII)");
}

#[test]
fn malformed_char_value_is_reported() {
    let mut a = Alphabet::new("A".to_string());
    for v in ["", "0x", "4G", "Time(A)"] {
        let e = a.process_command("t.sasm", 5, "def_char", &[v, "X"]).unwrap_err();
        assert_eq!(e.kind, ErrorKind::MalformedLiteral);
        assert_eq!(e.line, 5);
        assert_eq!(e.message, format!("malformed literal: {}", v));
    }
    assert_eq!(a.len(), 0);
}

#[test]
fn malformed_char_name_is_reported() {
    let mut a = Alphabet::new("A".to_string());
    let e = a.process_command("t.sasm", 5, "def_char", &["1", "NOT-A-NAME"]).unwrap_err();
    assert_eq!(e.kind, ErrorKind::MalformedArgs);
    assert_eq!(e.message, "not an identifier: NOT-A-NAME");
    let e = a.process_command("t.sasm", 6, "def_char", &["1", "1ST"]).unwrap_err();
    assert_eq!(e.kind, ErrorKind::MalformedArgs);
    assert_eq!(e.message, "no usable name can be made of: 1ST");
    assert_eq!(a.len(), 0);
}

#[test]
fn alphabet_arity_and_unknown_commands() {
    let mut a = Alphabet::new("A".to_string());
    let e = a.process_command("t.sasm", 1, "def_char", &["0x41"]).unwrap_err();
    assert_eq!(e.kind, ErrorKind::MalformedArgs);
    assert_eq!(e.message, "Alphabet (A) - unknown command: def_char ([\"0x41\"])");
    let e = a.process_command("t.sasm", 1, "def_char", &["0x41", "A", "B"]).unwrap_err();
    assert_eq!(e.kind, ErrorKind::MalformedArgs);
    let e = a.process_command("t.sasm", 1, "set_char_type", &[]).unwrap_err();
    assert_eq!(e.kind, ErrorKind::MalformedArgs);
    assert_eq!(e.message, "Alphabet (A) - unknown command: set_char_type ([])");
    let e = a.process_command("t.sasm", 8, "set_moment_type", &["u8"]).unwrap_err();
    assert_eq!(e.kind, ErrorKind::UnknownCommand);
    assert_eq!(e.line, 8);
    assert_eq!(e.message, "Alphabet (A) - unknown command: set_moment_type ([\"u8\"])");
    assert_eq!(
        e.render(),
        "t.sasm:8: Alphabet (A) - unknown command: set_moment_type ([\"u8\"])"
    );
    let e = a.process_command("t.sasm", 8, "push_char", &["A", "B"]).unwrap_err();
    assert_eq!(e.kind, ErrorKind::UnknownCommand);
}

#[test]
fn an_alphabet_name_that_cannot_be_minted_is_refused() {
    let mut a = Alphabet::new("not a name".to_string());
    a.process_command("t.sasm", 1, "set_char_type", &["u8"]).unwrap();
    let f = a.generate().unwrap_err();
    assert_eq!(f.kind, ErrorKind::MalformedArgs);
    assert_eq!(f.message, "not an identifier: not a name");
}
