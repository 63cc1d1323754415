use streamasm::error::{CompileError, ErrorKind, Fault};
use streamasm::text::{
    bare_identifier, chars_of, decimal, ident_char, identifier, only_ident_chars, quote_list, split_commas, str_equal,
};

#[test]
fn chars_of_keeps_every_character() {
    assert_eq!(chars_of("a,b"), vec!['a', ',', 'b']);
    assert_eq!(chars_of(""), Vec::<char>::new());
    assert_eq!(chars_of("é#"), vec!['é', '#']);
}

#[test]
fn str_equal_compares_characters() {
    assert!(str_equal("label", "label"));
    assert!(!str_equal("label", "Label"));
    assert!(!str_equal("label", "labe"));
    assert!(str_equal("", ""));
}

#[test]
fn identifier_characters() {
    assert!(ident_char('a'));
    assert!(ident_char('Z'));
    assert!(ident_char('0'));
    assert!(ident_char('_'));
    assert!(!ident_char('-'));
    assert!(!ident_char(' '));
    assert!(!ident_char('é'));
    assert!(!ident_char('('));
}

#[test]
fn identifiers_are_nonempty_words() {
    assert!(identifier("A_UPPERCASE"));
    assert!(identifier("sync2"));
    assert!(identifier("2d"));
    assert!(identifier("_"));
    assert!(!identifier(""));
    assert!(!identifier("Time(A)"));
    assert!(!identifier("a b"));
    assert!(only_ident_chars(""));
    assert!(!only_ident_chars("a.b"));
}

#[test]
fn bare_identifiers_do_not_start_with_a_digit() {
    assert!(bare_identifier("u8"));
    assert!(bare_identifier("_x"));
    assert!(!bare_identifier("8u"));
    assert!(!bare_identifier(""));
    assert!(!bare_identifier("u-8"));
}

#[test]
fn decimal_writes_numbers_without_leading_zeros() {
    assert_eq!(decimal(0), "0");
    assert_eq!(decimal(7), "7");
    assert_eq!(decimal(10), "10");
    assert_eq!(decimal(1234567890), "1234567890");
    assert_eq!(decimal(usize::MAX), format!("{}", usize::MAX));
}

#[test]
fn split_commas_keeps_empty_pieces() {
    assert_eq!(split_commas("a,b"), vec!["a".to_string(), "b".to_string()]);
    assert_eq!(split_commas("abc"), vec!["abc".to_string()]);
    assert_eq!(split_commas(""), vec!["".to_string()]);
    assert_eq!(split_commas("a,"), vec!["a".to_string(), "".to_string()]);
    assert_eq!(split_commas(",a"), vec!["".to_string(), "a".to_string()]);
    assert_eq!(split_commas(",,"), vec!["".to_string(), "".to_string(), "".to_string()]);
    assert_eq!(
        split_commas("L,Time(A),Time(B)"),
        vec!["L".to_string(), "Time(A)".to_string(), "Time(B)".to_string()]
    );
}

#[test]
fn split_commas_agrees_with_std_split() {
    for s in ["", ",", "a", "a,b,c", ",x,,y,", "0x41,A_UPPERCASE", " a , b "] {
        let expected: Vec<String> = s.split(',').map(|p| p.to_string()).collect();
        assert_eq!(split_commas(s), expected);
    }
}

#[test]
fn errors_render_as_path_line_message() {
    let e = CompileError::new(
        ErrorKind::UnknownCommand,
        "input.sasm",
        12,
        "unknown command: foo".to_string(),
    );
    assert_eq!(e.render(), "input.sasm:12: unknown command: foo");
    assert_eq!(e.kind, ErrorKind::UnknownCommand);
    assert_eq!(e.filename, "input.sasm");
    assert_eq!(e.line, 12);
}

#[test]
fn faults_are_tied_to_a_place() {
    let f = Fault::about(ErrorKind::MalformedArgs, "not a type: ", "8u");
    assert_eq!(f.kind, ErrorKind::MalformedArgs);
    assert_eq!(f.message, "not a type: 8u");
    let e = f.at("a.sasm", 3);
    assert_eq!(e.kind, ErrorKind::MalformedArgs);
    assert_eq!(e.filename, "a.sasm");
    assert_eq!(e.line, 3);
    assert_eq!(e.message, "not a type: 8u");
    let r = Fault::refused(ErrorKind::UnknownCommand, "Program", "p", "x", &["1", "b c"]);
    assert_eq!(r.kind, ErrorKind::UnknownCommand);
    assert_eq!(r.message, "Program (p) - unknown command: x ([\"1\", \"b c\"])");
    let r = Fault::refused(ErrorKind::MalformedArgs, "Clock", "C", "set_clock_repr", &[]);
    assert_eq!(r.kind, ErrorKind::MalformedArgs);
    assert_eq!(r.message, "Clock (C) - unknown command: set_clock_repr ([])");
    let r = Fault::refused_in_general(ErrorKind::UnknownCommand, "x", &["1"]);
    assert_eq!(r.kind, ErrorKind::UnknownCommand);
    assert_eq!(r.message, "General - Unknown command: x ([\"1\"])");
    assert_eq!(Fault::bad_type("x y").message, "not a type: x y");
    let g = Fault::new(ErrorKind::NotImplemented, "Not implemented".to_string());
    assert_eq!(g.kind, ErrorKind::NotImplemented);
}

#[test]
fn texts_in_messages_are_quoted() {
    assert_eq!(quote_list(&["a\"b"]), "[\"a\\\"b\"]");
    assert_eq!(quote_list(&["tab\there"]), "[\"tab\\there\"]");
    assert_eq!(quote_list(&[]), "[]");
    assert_eq!(quote_list(&["0x41"]), "[\"0x41\"]");
    assert_eq!(quote_list(&["0x41", "A_UPPERCASE"]), "[\"0x41\", \"A_UPPERCASE\"]");
    assert_eq!(quote_list(&["a", "", "c"]), "[\"a\", \"\", \"c\"]");
    for args in [vec![], vec!["x"], vec!["x", "y z", "q\"r"]] {
        assert_eq!(quote_list(&args), format!("{:?}", args));
    }
}
