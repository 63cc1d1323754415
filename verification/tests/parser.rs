use streamasm::error::ErrorKind;
use streamasm::lexer::{
    groups_of, line_of_groups, read_line, Line, COMMAND_PATTERN, COMMENT_PATTERN,
};
use streamasm::parser::state::State;
use streamasm::parser::{compile, LineKind, Parser};
use streamasm::preamble::{preamble, PREAMBLE};

fn lines(source: &str) -> Vec<String> {
    source.lines().map(|l| l.to_string()).collect()
}

const SOURCE: &str = "# --- Overview ---
defalphabet ASCII;

# Defines the maximum number of bits a 'character' might take up
set_char_type   u8;
def_char            0x48,H_UPPERCASE;
def_char            0x69,I_LOWERCASE;
def_char            0x21,EXCLAMATION_POINT;

defclock CounterClock;
set_moment_type      u32;
# could also be:
    UNIX_TIMESTAMP
    ...
set_clock_repr      QUANTITY;

defprogram hello_world;
reg_exit            A,ASCII,CounterClock,0x50;
start_moment        0,A;
push_moment         1,A;
push_char           H_UPPERCASE,A;
push_char           I_LOWERCASE,A;
push_val            0x21,A;
push_moment         1,A;
";

const ALPHABET: &str = r#"#[derive(Copy, Clone, Debug)]
pub enum CharAscii {
    HUppercase(),
    ILowercase(),
    ExclamationPoint(),
}
pub struct AlphabetAscii {}
impl AlphabetAscii {
    fn char_with_name(name: &str) -> Result<CharAscii, AlphabetError<&str>> {
        use CharAscii::*;
        match name {
            "H_UPPERCASE" => Ok(HUppercase()),
            "I_LOWERCASE" => Ok(ILowercase()),
            "EXCLAMATION_POINT" => Ok(ExclamationPoint()),
            _ => Err(AlphabetError::NameNotFound()),
        }
    }
    const fn to_char(rep: u8) -> Result<CharAscii, AlphabetError<u8>> {
        use CharAscii::*;
        match rep {
            0x48 => Ok(HUppercase()),
            0x69 => Ok(ILowercase()),
            0x21 => Ok(ExclamationPoint()),
            _ => Err(AlphabetError::UnknownCharacter(rep)),
        }
    }
    const fn to_val(chr: CharAscii) -> u8 {
        use CharAscii::*;
        match chr {
            HUppercase() => 0x48 as u8,
            ILowercase() => 0x69 as u8,
            ExclamationPoint() => 0x21 as u8,
        }
    }
}
impl AlphabetLike for AlphabetAscii {
    type CharRep = u8;
    type CharEnum = CharAscii;
    fn char_with_name(name: &str) -> Result<CharAscii, AlphabetError<&str>> {
        <AlphabetAscii>::char_with_name(name)
    }
    fn to_char(rep: u8) -> Result<CharAscii, AlphabetError<u8>> {
        <AlphabetAscii>::to_char(rep)
    }
    fn to_val(chr: CharAscii) -> u8 {
        <AlphabetAscii>::to_val(chr)
    }
}
"#;

const CLOCK: &str = r#"pub struct ClockCounterClock {}
impl ClockCounterClock {
    const fn to_moment(rep: u32) -> ClockMoment<u32> {
        ClockMoment::Quantity(rep)
    }
    const fn represents() -> &'static str {
        "QUANTITY"
    }
}
impl ClockLike for ClockCounterClock {
    type MomentRep = u32;
    fn represents(&self) -> &str {
        <ClockCounterClock>::represents()
    }
    fn to_moment(rep: u32) -> ClockMoment<u32> {
        <ClockCounterClock>::to_moment(rep)
    }
}
impl AddableClockLike<u32> for ClockCounterClock {}
"#;

const PROGRAM: &str = r#"pub struct ProgramHelloWorld {
    pub exit_a: Stream<AlphabetAscii, ClockCounterClock, 0x50>,
}
impl ProgramHelloWorld {
    pub const fn new() -> Self {
        Self {
            exit_a: <Stream<AlphabetAscii, ClockCounterClock, 0x50>>::new(),
        }
    }
    pub fn label_root(&mut self) {
        self.exit_a.set_initial_moment(0);
        self.exit_a.push_moment(1).expect("Could not push_moment to Exit (A)");
        self.exit_a.push(<AlphabetAscii as AlphabetLike>::CharEnum::HUppercase()).expect("Could not push_char (\"H_UPPERCASE\")");
        self.exit_a.push(<AlphabetAscii as AlphabetLike>::CharEnum::ILowercase()).expect("Could not push_char (\"I_LOWERCASE\")");
        self.exit_a.push(AlphabetAscii::to_char(0x21).expect("No character found in Alphabet (ASCII): \"0x21\"")).expect("Could not push_val to Exit (A)");
        self.exit_a.push_moment(1).expect("Could not push_moment to Exit (A)");
    }
}
"#;

#[test]
fn hello_world_emission() {
    let code = compile("hello.sasm", &lines(SOURCE)).unwrap();
    assert_eq!(code, format!("{}\n{}\n{}\n{}", PREAMBLE, ALPHABET, CLOCK, PROGRAM));
}

#[test]
fn emission_is_deterministic() {
    let first = compile("hello.sasm", &lines(SOURCE)).unwrap();
    let second = compile("hello.sasm", &lines(SOURCE)).unwrap();
    assert_eq!(first, second);
    // the name of the file is no part of a good artifact
    assert_eq!(first, compile("other.sasm", &lines(SOURCE)).unwrap());
}

#[test]
fn feeding_lines_is_compiling() {
    let mut parser = Parser::new("hello.sasm");
    for line in lines(SOURCE) {
        parser.parse_line(line).unwrap();
    }
    assert_eq!(parser.line(), 24);
    assert_eq!(parser.generate().unwrap(), compile("hello.sasm", &lines(SOURCE)).unwrap());
    // rendering does not close the open section
    assert_eq!(parser.generate().unwrap(), parser.generate().unwrap());
}

#[test]
fn an_empty_source_gives_the_preamble() {
    assert_eq!(Parser::new("p").generate().unwrap(), PREAMBLE);
    assert_eq!(compile("p", &Vec::new()).unwrap(), PREAMBLE);
    assert_eq!(preamble(), PREAMBLE);
    assert_eq!(compile("p", &lines("# only a comment\n\n")).unwrap(), PREAMBLE);
}

#[test]
fn the_preamble_holds_the_runtime() {
    assert!(PREAMBLE.starts_with("#![no_std]\n"));
    for item in [
        "pub enum AlphabetError<CharRep: Debug> {",
        "    UnknownCharacter(CharRep),",
        "    UnexpectedError(&'static str),",
        "    NameNotFound(),",
        "pub enum ExitError {\n    BufferFull,\n}",
        "pub enum StreamItem<CharacterRep, Moment> {\n    Empty,\n    Character(CharacterRep),\n    Moment(Moment),\n}",
        "pub trait AlphabetLike {",
        "pub trait ClockLike {",
        "pub trait AddableClockLike<MomentRep: core::ops::Add<Output = MomentRep>> {",
        "pub trait ExitLike<Alphabet: AlphabetLike, Clock: ClockLike> {",
        "pub trait GatewayLike<Alphabet: AlphabetLike, Clock: ClockLike, const BUFFER_SIZE: usize> {",
        "pub struct Stream<Alphabet: AlphabetLike, Clock: ClockLike, const BUFFER_SIZE: usize> {",
        "    fn set_initial_moment(&mut self, moment: Clock::MomentRep) {",
        "    fn accepting_pushes(&mut self) -> bool {",
        "    fn push(&mut self, chr: Alphabet::CharEnum) -> Result<(), ExitError> {",
        "    fn push_moment(&mut self, moment: Clock::MomentRep) -> Result<(), ExitError> {",
        "    fn push_with_name(&mut self, chr_name: &str) -> Result<(), ExitError> {",
        "    fn pop(&mut self) -> Self::Item {",
        "    fn current_moment(&self) -> Option<Clock::MomentRep> {",
        "    fn is_empty(&self) -> bool {",
        "    fn next_is_character(&self) -> bool {",
        "    fn next_is_moment(&self) -> bool {",
        "    pub const fn new() -> Self {",
        "        self.idx = (self.idx + 1) % BUFFER_SIZE;",
    ] {
        assert!(PREAMBLE.contains(item), "{}", item);
    }
    assert!(PREAMBLE.ends_with("}\n"));
}

#[test]
fn sections_are_ordered_by_kind() {
    let source = "defclock C;\nset_moment_type u8;\nset_clock_repr QUANTITY;\ndefalphabet B;\nset_char_type u8;\ndefclock D;\nset_moment_type u16;\nset_clock_repr UNIX_SECONDS;\ndefalphabet A;\nset_char_type u16;\n";
    let code = compile("order.sasm", &lines(source)).unwrap();
    let rest = &code[PREAMBLE.len()..];
    let b = rest.find("\n#[derive(Copy, Clone, Debug)]\npub enum CharB {").unwrap();
    let a = rest.find("\n#[derive(Copy, Clone, Debug)]\npub enum CharA {").unwrap();
    let c = rest.find("\npub struct ClockC {}").unwrap();
    let d = rest.find("\npub struct ClockD {}").unwrap();
    assert_eq!(b, 0);
    assert!(b < a);
    assert!(a < c);
    assert!(c < d);
}

#[test]
fn lines_are_told_apart() {
    let mut parser = Parser::new("k.sasm");
    assert_eq!(parser.parse_line("# a comment".to_string()).unwrap(), LineKind::Comment);
    assert_eq!(parser.parse_line("#".to_string()).unwrap(), LineKind::Comment);
    assert_eq!(parser.parse_line("## boxed ##".to_string()).unwrap(), LineKind::Comment);
    assert_eq!(parser.parse_line("# defalphabet A;".to_string()).unwrap(), LineKind::Comment);
    assert_eq!(parser.parse_line("".to_string()).unwrap(), LineKind::Skipped);
    assert_eq!(parser.parse_line("    UNIX_TIMESTAMP".to_string()).unwrap(), LineKind::Skipped);
    assert_eq!(parser.parse_line("  # indented".to_string()).unwrap(), LineKind::Skipped);
    assert_eq!(parser.parse_line("defalphabet A".to_string()).unwrap(), LineKind::Skipped);
    assert_eq!(parser.parse_line("defalphabet A; # tail".to_string()).unwrap(), LineKind::Skipped);
    assert_eq!(parser.parse_line(" defalphabet A;".to_string()).unwrap(), LineKind::Skipped);
    assert_eq!(parser.parse_line("defalphabet A;".to_string()).unwrap(), LineKind::Command);
    assert_eq!(parser.parse_line("set_char_type\tu8;".to_string()).unwrap(), LineKind::Command);
    assert_eq!(parser.line(), 12);
    assert!(parser.generate().unwrap().contains("type CharRep = u8;"));
}

#[test]
fn the_lexer_cuts_commands_and_arguments() {
    match read_line("def_char            0x41,A_UPPERCASE;").unwrap() {
        Line::Command { cmd, args } => {
            assert_eq!(cmd, "def_char");
            assert_eq!(args, vec!["0x41".to_string(), "A_UPPERCASE".to_string()]);
        }
        other => panic!("{:?}", other),
    }
    match read_line("jlt a_earlier,Time(A),Time(B);").unwrap() {
        Line::Command { cmd, args } => {
            assert_eq!(cmd, "jlt");
            assert_eq!(
                args,
                vec!["a_earlier".to_string(), "Time(A)".to_string(), "Time(B)".to_string()]
            );
        }
        other => panic!("{:?}", other),
    }
    // a command without arguments
    match read_line("label;").unwrap() {
        Line::Command { cmd, args } => {
            assert_eq!(cmd, "label");
            assert_eq!(args, Vec::<String>::new());
        }
        other => panic!("{:?}", other),
    }
    // white space between the arguments is kept
    match read_line("def_char 0x41, A;").unwrap() {
        Line::Command { cmd, args } => {
            assert_eq!(cmd, "def_char");
            assert_eq!(args, vec!["0x41".to_string(), " A".to_string()]);
        }
        other => panic!("{:?}", other),
    }
    assert!(matches!(read_line("# text").unwrap(), Line::Comment));
    assert!(matches!(read_line("text").unwrap(), Line::Other));
    assert!(matches!(read_line("").unwrap(), Line::Other));
    assert!(matches!(read_line("push-char A,B;").unwrap(), Line::Other));
}

#[test]
fn a_line_is_made_of_the_groups_of_a_match() {
    let groups = vec![
        Some("push_char H,A;".to_string()),
        Some("push_char".to_string()),
        Some(" H,A".to_string()),
        Some("H,A".to_string()),
    ];
    match line_of_groups(&groups) {
        Line::Command { cmd, args } => {
            assert_eq!(cmd, "push_char");
            assert_eq!(args, vec!["H".to_string(), "A".to_string()]);
        }
        other => panic!("{:?}", other),
    }
    let groups = vec![Some("x;".to_string()), Some("x".to_string()), None, None];
    match line_of_groups(&groups) {
        Line::Command { cmd, args } => {
            assert_eq!(cmd, "x");
            assert!(args.is_empty());
        }
        other => panic!("{:?}", other),
    }
    let groups = vec![Some("x;".to_string()), Some("x".to_string())];
    match line_of_groups(&groups) {
        Line::Command { cmd, args } => {
            assert_eq!(cmd, "x");
            assert!(args.is_empty());
        }
        other => panic!("{:?}", other),
    }
    assert!(matches!(line_of_groups(&vec![Some("x;".to_string()), None]), Line::Other));
    assert!(matches!(line_of_groups(&vec![Some("x;".to_string())]), Line::Other));
    assert!(matches!(line_of_groups(&Vec::new()), Line::Other));
}

#[test]
fn no_command_is_known_before_the_first_section() {
    let mut parser = Parser::new("g.sasm");
    parser.parse_line("# header".to_string()).unwrap();
    let e = parser.parse_line("set_char_type u8;".to_string()).unwrap_err();
    assert_eq!(e.kind, ErrorKind::UnknownCommand);
    assert_eq!(e.filename, "g.sasm");
    assert_eq!(e.line, 2);
    assert_eq!(e.message, "General - Unknown command: set_char_type ([\"u8\"])");
    assert_eq!(e.render(), "g.sasm:2: General - Unknown command: set_char_type ([\"u8\"])");
    let e = parser.parse_line("label;".to_string()).unwrap_err();
    assert_eq!(e.kind, ErrorKind::UnknownCommand);
    assert_eq!(e.line, 3);
    assert_eq!(parser.generate().unwrap(), PREAMBLE);
}

#[test]
fn commands_go_to_the_open_section() {
    let mut parser = Parser::new("s.sasm");
    parser.parse_line("defclock C;".to_string()).unwrap();
    let e = parser.parse_line("set_char_type u8;".to_string()).unwrap_err();
    assert_eq!(e.kind, ErrorKind::UnknownCommand);
    assert_eq!(e.line, 2);
    parser.parse_line("defalphabet A;".to_string()).unwrap_err();
    // the clock is still open and can be completed
    parser.parse_line("set_moment_type u8;".to_string()).unwrap();
    parser.parse_line("set_clock_repr QUANTITY;".to_string()).unwrap();
    parser.parse_line("defalphabet A;".to_string()).unwrap();
    let e = parser.parse_line("set_moment_type u8;".to_string()).unwrap_err();
    assert_eq!(e.kind, ErrorKind::UnknownCommand);
    assert_eq!(e.line, 7);
}

#[test]
fn a_section_needs_one_good_name() {
    let mut parser = Parser::new("n.sasm");
    let e = parser.parse_line("defalphabet A,B;".to_string()).unwrap_err();
    assert_eq!(e.kind, ErrorKind::MalformedArgs);
    assert_eq!(e.message, "General - Unknown command: defalphabet ([\"A\", \"B\"])");
    let e = parser.parse_line("defclock;".to_string()).unwrap_err();
    assert_eq!(e.kind, ErrorKind::MalformedArgs);
    assert_eq!(e.message, "General - Unknown command: defclock ([])");
    assert_eq!(e.line, 2);
    let e = parser.parse_line("defprogram hello-world;".to_string()).unwrap_err();
    assert_eq!(e.kind, ErrorKind::MalformedArgs);
    assert_eq!(e.message, "not an identifier: hello-world");
    assert_eq!(parser.generate().unwrap(), PREAMBLE);
}

#[test]
fn a_section_is_rendered_when_the_next_one_starts() {
    let e = compile("m.sasm", &lines("defalphabet A;\ndef_char 1,ONE;\n\ndefclock C;\n")).unwrap_err();
    assert_eq!(e.kind, ErrorKind::MissingField);
    assert_eq!(e.filename, "m.sasm");
    assert_eq!(e.line, 4);
    assert_eq!(e.message, "Never called set_char_type on Alphabet (A)");
    assert_eq!(e.render(), "m.sasm:4: Never called set_char_type on Alphabet (A)");
}

#[test]
fn the_last_section_is_rendered_at_the_end() {
    let e = compile("m.sasm", &lines("defclock C;\nset_moment_type u8;\n# end\n")).unwrap_err();
    assert_eq!(e.kind, ErrorKind::MissingField);
    assert_eq!(e.line, 3);
    assert_eq!(e.message, "Never called set_clock_repr on Clock (C)");
}

#[test]
fn duplicate_char_name_rejected_in_a_source() {
    let source = "defalphabet A;\nset_char_type u8;\ndef_char 0x41,A_UPPERCASE;\n# more\ndef_char 0x42,A_UPPERCASE;\ndef_char 0x43,C_UPPERCASE;\n";
    let e = compile("dup.sasm", &lines(source)).unwrap_err();
    assert_eq!(e.kind, ErrorKind::DuplicateName);
    assert_eq!(e.line, 5);
    assert_eq!(e.message, "character name A_UPPERCASE is already defined at line 3");
}

#[test]
fn compilation_ends_at_the_first_error() {
    let source = "defalphabet A;\nbogus 1;\nset_char_type 8;\n";
    let e = compile("f.sasm", &lines(source)).unwrap_err();
    assert_eq!(e.kind, ErrorKind::UnknownCommand);
    assert_eq!(e.line, 2);
    assert_eq!(e.message, "Alphabet (A) - unknown command: bogus ([\"1\"])");
}

#[test]
fn a_program_names_alphabets_and_clocks_that_are_defined() {
    let source = "defclock C;\nset_moment_type u8;\nset_clock_repr QUANTITY;\ndefprogram p;\nreg_exit A,ASCII,C,4;\ndefalphabet ASCII;\nset_char_type u8;\n";
    let e = compile("r.sasm", &lines(source)).unwrap_err();
    assert_eq!(e.kind, ErrorKind::UnknownReference);
    assert_eq!(e.line, 6);
    assert_eq!(e.message, "Could not find Alphabet (ASCII) for Program (p)");

    let source = "defalphabet ASCII;\nset_char_type u8;\ndefprogram p;\nreg_gateway A,ASCII,C,4;\n";
    let e = compile("r.sasm", &lines(source)).unwrap_err();
    assert_eq!(e.kind, ErrorKind::UnknownReference);
    assert_eq!(e.line, 4);
    assert_eq!(e.message, "Could not find Clock (C) for Program (p)");
}

#[test]
fn an_instruction_names_streams_of_its_program() {
    let source = "defalphabet ASCII;\nset_char_type u8;\ndefclock C;\nset_moment_type u8;\nset_clock_repr QUANTITY;\ndefprogram p;\nreg_exit A,ASCII,C,4;\npush_moment 1,B;\n";
    let e = compile("r.sasm", &lines(source)).unwrap_err();
    assert_eq!(e.kind, ErrorKind::UnknownReference);
    assert_eq!(e.message, "Could not find Exit (B) for Program (p)");
}

#[test]
fn start_state_closes_the_open_section() {
    let mut parser = Parser::new("s.sasm");
    parser.start_state(State::clock("C".to_string())).unwrap();
    let e = parser.start_state(State::alphabet("A".to_string())).unwrap_err();
    assert_eq!(e.kind, ErrorKind::MissingField);
    assert_eq!(e.line, 0);
    parser.dispatch("set_moment_type", &["u8"]).unwrap();
    parser.dispatch("set_clock_repr", &["QUANTITY"]).unwrap();
    parser.start_state(State::General).unwrap();
    let code = parser.generate().unwrap();
    assert!(code.starts_with(PREAMBLE));
    assert!(code[PREAMBLE.len()..].starts_with("\npub struct ClockC {}\n"));
}

#[test]
fn states_render_their_section() {
    assert_eq!(State::General.generate().unwrap(), "");
    assert_eq!(
        State::alphabet("A".to_string()).generate().unwrap_err().kind,
        ErrorKind::MissingField
    );
    assert_eq!(State::clock("C".to_string()).generate().unwrap_err().kind, ErrorKind::MissingField);
    assert!(State::program("p".to_string()).generate().unwrap().starts_with("pub struct ProgramP {"));
    let mut state = State::General;
    let e = state.process_command("s.sasm", 4, "def_char", &["1", "A"]).unwrap_err();
    assert_eq!(e.kind, ErrorKind::UnknownCommand);
    assert_eq!(e.line, 4);
    let mut state = State::alphabet("A".to_string());
    state.process_command("s.sasm", 1, "set_char_type", &["u8"]).unwrap();
    state.process_command("s.sasm", 2, "def_char", &["1", "ONE"]).unwrap();
    assert!(state.generate().unwrap().contains("            1 => Ok(One()),\n"));
    let mut state = State::clock("C".to_string());
    state.process_command("s.sasm", 1, "set_moment_type", &["u8"]).unwrap();
    let mut state = State::program("p".to_string());
    state.process_command("s.sasm", 1, "reg_exit", &["A", "X", "Y", "1"]).unwrap();
    assert!(state.generate().unwrap().contains("    pub exit_a: Stream<AlphabetX, ClockY, 1>,\n"));
}

#[test]
fn the_groups_of_a_match_are_copied_out() {
    let groups = groups_of(COMMAND_PATTERN, "reg_exit  A,ASCII,CounterClock,0x50;").unwrap().unwrap();
    assert_eq!(
        groups,
        vec![
            Some("reg_exit  A,ASCII,CounterClock,0x50;".to_string()),
            Some("reg_exit".to_string()),
            Some("  A,ASCII,CounterClock,0x50".to_string()),
            Some("A,ASCII,CounterClock,0x50".to_string()),
        ]
    );
    let groups = groups_of(COMMAND_PATTERN, "label;").unwrap().unwrap();
    assert_eq!(groups, vec![Some("label;".to_string()), Some("label".to_string()), None, None]);
    assert_eq!(groups_of(COMMAND_PATTERN, "label").unwrap(), None);
    assert_eq!(groups_of(COMMAND_PATTERN, "# label;").unwrap(), None);
    let groups = groups_of(COMMENT_PATTERN, "## note").unwrap().unwrap();
    assert_eq!(groups[0], Some("## note".to_string()));
    assert_eq!(groups[1], Some("##".to_string()));
    assert_eq!(groups_of(COMMENT_PATTERN, " # note").unwrap(), None);
    assert_eq!(groups_of("a(b)?", "xa").unwrap(), Some(vec![Some("a".to_string()), None]));
}

#[test]
fn a_refused_pattern_is_a_fault() {
    let f = groups_of("(", "text").unwrap_err();
    assert_eq!(f.kind, ErrorKind::Pattern);
    assert_eq!(f.message, "the line pattern was refused: (");
    let f = groups_of("[a-", "").unwrap_err();
    assert_eq!(f.kind, ErrorKind::Pattern);
}
