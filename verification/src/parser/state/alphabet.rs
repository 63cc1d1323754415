//! Alphabets: named, finite sets of characters, each with its own value.

use crate::error::{
    bad_type, refused, CompileError, ErrorKind, Fault, FaultView,
};
use crate::ident::{bare_mint_fault, cased, mint, mint_bare, mint_fault, Style};
use crate::literal::{is_accepted, literal_value, parse_literal, parsed, Literal};
use crate::text::{
    bare_identifier, decimal, decimal_text, distinct, first_position, is_bare_identifier,
    lemma_distinct_position, lemma_distinct_push, lemma_first_position, lemma_no_position,
    str_equal, str_views,
};
use vstd::prelude::*;
use vstd::string::*;

verus! {

/// One character of an alphabet, as `def_char` declared it.
#[derive(Debug)]
pub struct CharDef {
    value: Literal,
    name: String,
    line: usize,
}

pub struct CharDefView {
    /// The value as the source wrote it.
    pub text: Seq<char>,
    /// The number that the value stands for.
    pub value: nat,
    /// The name as the source wrote it.
    pub name: Seq<char>,
    /// The line of the declaration.
    pub line: nat,
}

impl View for CharDef {
    type V = CharDefView;

    closed spec fn view(&self) -> CharDefView {
        CharDefView {
            text: self.value@.text,
            value: self.value@.value,
            name: self.name@,
            line: self.line as nat,
        }
    }
}

/// An alphabet under construction.
#[derive(Debug)]
pub struct Alphabet {
    name: String,
    char_type: Option<String>,
    chars: Vec<CharDef>,
}

pub struct AlphabetView {
    pub name: Seq<char>,
    /// The integer type that carries a character, once `set_char_type` gave it.
    pub char_type: Option<Seq<char>>,
    /// The characters, in the order of their declarations.
    pub chars: Seq<CharDefView>,
}

impl View for Alphabet {
    type V = AlphabetView;

    closed spec fn view(&self) -> AlphabetView {
        AlphabetView {
            name: self.name@,
            char_type: match self.char_type {
                Some(t) => Some(t@),
                None => None,
            },
            chars: self.chars@.map_values(|c: CharDef| c@),
        }
    }
}

impl AlphabetView {
    /// The names of the characters, in the order of their declarations.
    pub open spec fn names(self) -> Seq<Seq<char>> {
        self.chars.map_values(|c: CharDefView| c.name)
    }

    /// The values of the characters, in the order of their declarations.
    pub open spec fn values(self) -> Seq<nat> {
        self.chars.map_values(|c: CharDefView| c.value)
    }

    /// The invariant of an alphabet: no name and no value is declared twice,
    /// every value is an accepted literal, every name mints to a variant,
    /// and the character type, once set, is the name of a type.
    pub open spec fn wf(self) -> bool {
        &&& distinct(self.names())
        &&& distinct(self.values())
        &&& forall|i: int|
            0 <= i < self.chars.len() ==> {
                let c = #[trigger] self.chars[i];
                &&& is_accepted(c.text)
                &&& c.value == literal_value(c.text)
                &&& bare_mint_fault(c.name, Style::Pascal) is None
            }
        &&& self.char_type matches Some(rep) ==> is_bare_identifier(rep)
    }
}

/// The fault of a second `set_char_type`.
pub open spec fn char_type_set_twice(alphabet: Seq<char>) -> FaultView {
    FaultView {
        kind: ErrorKind::DuplicateName,
        message: "character type is already set for alphabet: "@ + alphabet,
    }
}

/// The fault of a character name that was declared before, on `line`.
pub open spec fn duplicate_char_name(name: Seq<char>, line: nat) -> FaultView {
    FaultView {
        kind: ErrorKind::DuplicateName,
        message: "character name "@ + name + " is already defined at line "@ + decimal_text(line),
    }
}

/// The fault of a character value that was declared before, on `line`.
pub open spec fn duplicate_char_value(text: Seq<char>, line: nat) -> FaultView {
    FaultView {
        kind: ErrorKind::DuplicateName,
        message: "character value "@ + text + " is already defined at line "@ + decimal_text(
            line,
        ),
    }
}

/// The alphabet after a command on line `line`, or why the command is
/// refused.
///
/// `set_char_type T` names the integer type of the characters; it is
/// accepted once. `def_char VALUE,NAME` declares a character; its value is a
/// literal, its name mints to a variant name, and neither was declared
/// before in this alphabet.
pub open spec fn alphabet_step(
    a: AlphabetView,
    line: nat,
    cmd: Seq<char>,
    args: Seq<Seq<char>>,
) -> Result<AlphabetView, FaultView> {
    if cmd == "set_char_type"@ {
        if args.len() != 1 {
            Err(refused(ErrorKind::MalformedArgs, "Alphabet"@, a.name, cmd, args))
        } else if !is_bare_identifier(args[0]) {
            Err(bad_type(args[0]))
        } else if a.char_type is Some {
            Err(char_type_set_twice(a.name))
        } else {
            Ok(AlphabetView { char_type: Some(args[0]), ..a })
        }
    } else if cmd == "def_char"@ {
        if args.len() != 2 {
            Err(refused(ErrorKind::MalformedArgs, "Alphabet"@, a.name, cmd, args))
        } else {
            match parsed(args[0]) {
                Err(f) => Err(f),
                Ok(value) => match bare_mint_fault(args[1], Style::Pascal) {
                    Some(f) => Err(f),
                    None => match first_position(a.names(), args[1]) {
                        Some(i) => Err(duplicate_char_name(args[1], a.chars[i].line)),
                        None => match first_position(a.values(), value.value) {
                            Some(i) => Err(duplicate_char_value(args[0], a.chars[i].line)),
                            None => Ok(
                                AlphabetView {
                                    chars: a.chars.push(
                                        CharDefView {
                                            text: value.text,
                                            value: value.value,
                                            name: args[1],
                                            line,
                                        },
                                    ),
                                    ..a
                                },
                            ),
                        },
                    },
                },
            }
        }
    } else {
        Err(refused(ErrorKind::UnknownCommand, "Alphabet"@, a.name, cmd, args))
    }
}

/// A command that an alphabet accepts keeps its invariant.
pub proof fn lemma_alphabet_step_wf(
    a: AlphabetView,
    line: nat,
    cmd: Seq<char>,
    args: Seq<Seq<char>>,
)
    requires
        a.wf(),
    ensures
        alphabet_step(a, line, cmd, args) matches Ok(b) ==> b.wf(),
{
    if let Ok(b) = alphabet_step(a, line, cmd, args) {
        if cmd == "set_char_type"@ {
        } else if cmd == "def_char"@ {
            let value = parsed(args[0])->Ok_0;
            lemma_distinct_push(a.names(), args[1]);
            lemma_distinct_push(a.values(), value.value);
            assert(b.names() =~= a.names().push(args[1]));
            assert(b.values() =~= a.values().push(value.value));
        }
    }
}

/// Why a conversion of the emitted code fails.
#[derive(Clone, Copy, Debug, PartialEq, Eq, Structural)]
pub enum AlphabetError {
    /// No character of the alphabet has this value.
    UnknownCharacter(u128),
    /// Kept for the emitted code; no conversion returns it.
    UnexpectedError,
    /// No character of the alphabet has this name.
    NameNotFound,
}

impl AlphabetView {
    /// What the emitted `char_with_name` returns: the character that was
    /// declared with exactly this name, by its place among the variants.
    pub open spec fn char_with_name(self, name: Seq<char>) -> Result<int, AlphabetError> {
        match first_position(self.names(), name) {
            Some(i) => Ok(i),
            None => Err(AlphabetError::NameNotFound),
        }
    }

    /// What the emitted `to_char` returns: the character that was declared
    /// with this value.
    pub open spec fn to_char(self, rep: u128) -> Result<int, AlphabetError> {
        match first_position(self.values(), rep as nat) {
            Some(i) => Ok(i),
            None => Err(AlphabetError::UnknownCharacter(rep)),
        }
    }

    /// What the emitted `to_val` returns: the value that the character was
    /// declared with.
    pub open spec fn to_val(self, chr: int) -> nat
        recommends
            0 <= chr < self.chars.len(),
    {
        self.chars[chr].value
    }
}

/// Bijection: for every character that an alphabet declares, the lookup by
/// its name and the lookup by its value give the same variant, and the value
/// of that variant is the declared value.
pub proof fn law_bijection(a: AlphabetView, i: int)
    requires
        a.wf(),
        0 <= i < a.chars.len(),
    ensures
        a.char_with_name(a.chars[i].name) == Ok::<int, AlphabetError>(i),
        a.to_char(a.chars[i].value as u128) == a.char_with_name(a.chars[i].name),
        a.to_val(a.char_with_name(a.chars[i].name)->Ok_0) == a.chars[i].value,
        a.to_char(a.to_val(i) as u128) == Ok::<int, AlphabetError>(i),
{
    assert(a.names()[i] == a.chars[i].name);
    assert(a.values()[i] == a.chars[i].value);
    lemma_distinct_position(a.names(), i);
    lemma_distinct_position(a.values(), i);
}

/// The four tables of an alphabet's emitted code.
#[derive(Clone, Copy, Debug, PartialEq, Eq, Structural)]
pub enum Row {
    /// The variants of the character type.
    Variant,
    /// From a name to its variant.
    ByName,
    /// From a value to its variant.
    ByValue,
    /// From a variant to its value.
    ToValue,
}

/// The fault of an alphabet that is rendered without a character type.
pub open spec fn missing_char_type(alphabet: Seq<char>) -> FaultView {
    FaultView {
        kind: ErrorKind::MissingField,
        message: "Never called set_char_type on Alphabet ("@ + alphabet + ")"@,
    }
}

/// The variant that stands for a character in the emitted code.
pub open spec fn variant_of(c: CharDefView) -> Seq<char> {
    cased(c.name, Style::Pascal)
}

/// The line of a character in one of the tables; `rep` is the character type.
pub open spec fn row_text(kind: Row, c: CharDefView, rep: Seq<char>) -> Seq<char> {
    match kind {
        Row::Variant => "    "@ + variant_of(c) + "(),\n"@,
        Row::ByName => "            \""@ + c.name + "\" => Ok("@ + variant_of(c) + "()),\n"@,
        Row::ByValue => "            "@ + c.text + " => Ok("@ + variant_of(c) + "()),\n"@,
        Row::ToValue => "            "@ + variant_of(c) + "() => "@ + c.text + " as "@ + rep
            + ",\n"@,
    }
}

/// The lines of the first `n` characters in one of the tables.
pub open spec fn rows_text(kind: Row, chars: Seq<CharDefView>, rep: Seq<char>, n: nat) -> Seq<char>
    decreases n,
{
    if n == 0 {
        Seq::<char>::empty()
    } else {
        rows_text(kind, chars, rep, (n - 1) as nat) + row_text(kind, chars[n - 1], rep)
    }
}

/// The first of the first `n` characters whose name mints to no variant.
pub open spec fn chars_fault(chars: Seq<CharDefView>, n: nat) -> Option<FaultView>
    decreases n,
{
    if n == 0 {
        None
    } else {
        match chars_fault(chars, (n - 1) as nat) {
            Some(f) => Some(f),
            None => bare_mint_fault(chars[n - 1].name, Style::Pascal),
        }
    }
}

/// The character type of the emitted code: `ty` is the minted name of the
/// alphabet, `rows` the lines of its variants.
pub open spec fn enum_text(ty: Seq<char>, rows: Seq<char>) -> Seq<char> {
    "#[derive(Copy, Clone, Debug)]\npub enum Char"@ + ty + " {\n"@ + rows + "}\npub struct Alphabet"@
        + ty + " {}\n"@
}

/// The function of the emitted code that finds a character by its name.
pub open spec fn by_name_text(ty: Seq<char>, rows: Seq<char>) -> Seq<char> {
    "    fn char_with_name(name: &str) -> Result<Char"@ + ty
        + ", AlphabetError<&str>> {\n        use Char"@ + ty + "::*;\n        match name {\n"@ + rows
        + "            _ => Err(AlphabetError::NameNotFound()),\n        }\n    }\n"@
}

/// The function of the emitted code that finds a character by its value.
pub open spec fn by_value_text(ty: Seq<char>, rep: Seq<char>, rows: Seq<char>) -> Seq<char> {
    "    const fn to_char(rep: "@ + rep + ") -> Result<Char"@ + ty + ", AlphabetError<"@ + rep
        + ">> {\n        use Char"@ + ty + "::*;\n        match rep {\n"@ + rows
        + "            _ => Err(AlphabetError::UnknownCharacter(rep)),\n        }\n    }\n"@
}

/// The function of the emitted code that gives the value of a character.
pub open spec fn to_value_text(ty: Seq<char>, rep: Seq<char>, rows: Seq<char>) -> Seq<char> {
    "    const fn to_val(chr: Char"@ + ty + ") -> "@ + rep + " {\n        use Char"@ + ty
        + "::*;\n        match chr {\n"@ + rows + "        }\n    }\n"@
}

/// The part of the emitted code that hands the three functions to the
/// runtime.
pub open spec fn capability_text(ty: Seq<char>, rep: Seq<char>) -> Seq<char> {
    "impl AlphabetLike for Alphabet"@ + ty + " {\n    type CharRep = "@ + rep
        + ";\n    type CharEnum = Char"@ + ty
        + ";\n    fn char_with_name(name: &str) -> Result<Char"@ + ty
        + ", AlphabetError<&str>> {\n        <Alphabet"@ + ty
        + ">::char_with_name(name)\n    }\n    fn to_char(rep: "@ + rep + ") -> Result<Char"@ + ty
        + ", AlphabetError<"@ + rep + ">> {\n        <Alphabet"@ + ty
        + ">::to_char(rep)\n    }\n    fn to_val(chr: Char"@ + ty + ") -> "@ + rep
        + " {\n        <Alphabet"@ + ty + ">::to_val(chr)\n    }\n}\n"@
}

impl AlphabetView {
    /// Why the alphabet cannot be rendered, if it cannot: it has no
    /// character type, or one of its names cannot be minted.
    pub open spec fn fault(self) -> Option<FaultView> {
        match self.char_type {
            None => Some(missing_char_type(self.name)),
            Some(rep) => if !is_bare_identifier(rep) {
                Some(bad_type(rep))
            } else {
                match mint_fault(self.name, Style::Pascal) {
                    Some(f) => Some(f),
                    None => chars_fault(self.chars, self.chars.len()),
                }
            },
        }
    }

    /// The lines of all characters in one of the tables.
    pub open spec fn rows(self, kind: Row) -> Seq<char> {
        rows_text(kind, self.chars, self.char_type->0, self.chars.len())
    }

    /// The emitted code of the alphabet: the character type with one variant
    /// for each character, the carrier type, its three functions, and the
    /// impl that hands them to the runtime.
    pub open spec fn text(self) -> Seq<char> {
        let ty = cased(self.name, Style::Pascal);
        let rep = self.char_type->0;
        enum_text(ty, self.rows(Row::Variant)) + "impl Alphabet"@ + ty + " {\n"@ + by_name_text(
            ty,
            self.rows(Row::ByName),
        ) + by_value_text(ty, rep, self.rows(Row::ByValue)) + to_value_text(
            ty,
            rep,
            self.rows(Row::ToValue),
        ) + "}\n"@ + capability_text(ty, rep)
    }
}

impl Alphabet {
    /// An alphabet without a character type and without characters.
    pub fn new(name: String) -> (alphabet: Self)
        ensures
            alphabet@ == (AlphabetView {
                name: name@,
                char_type: None,
                chars: Seq::<CharDefView>::empty(),
            }),
            alphabet@.wf(),
    {
        let alphabet = Alphabet { name, char_type: None, chars: Vec::new() };
        assert(alphabet@.chars =~= Seq::<CharDefView>::empty());
        alphabet
    }

    /// The name of the alphabet, as the source wrote it.
    pub fn name(&self) -> (name: &str)
        ensures
            name@ == self@.name,
    {
        self.name.as_str()
    }

    /// The number of characters.
    pub fn len(&self) -> (n: usize)
        ensures
            n == self@.chars.len(),
    {
        self.chars.len()
    }

    /// Finds a character by its name, as the emitted `char_with_name` does.
    pub fn char_with_name(&self, name: &str) -> (r: Result<usize, AlphabetError>)
        ensures
            match r {
                Ok(i) => self@.char_with_name(name@) == Ok::<int, AlphabetError>(i as int) && i
                    < self@.chars.len(),
                Err(e) => self@.char_with_name(name@) == Err::<int, AlphabetError>(e),
            },
    {
        match self.position_of_name(name) {
            Some(i) => Ok(i),
            None => Err(AlphabetError::NameNotFound),
        }
    }

    /// Finds a character by its value, as the emitted `to_char` does.
    pub fn to_char(&self, rep: u128) -> (r: Result<usize, AlphabetError>)
        ensures
            match r {
                Ok(i) => self@.to_char(rep) == Ok::<int, AlphabetError>(i as int) && i
                    < self@.chars.len(),
                Err(e) => self@.to_char(rep) == Err::<int, AlphabetError>(e),
            },
    {
        match self.position_of_value(rep) {
            Some(i) => Ok(i),
            None => Err(AlphabetError::UnknownCharacter(rep)),
        }
    }

    /// The value of a character, as the emitted `to_val` gives it.
    pub fn to_val(&self, chr: usize) -> (value: u128)
        requires
            chr < self@.chars.len(),
        ensures
            value == self@.to_val(chr as int),
    {
        assert(self@.chars[chr as int] == self.chars[chr as int]@);
        self.chars[chr].value.value()
    }

    /// The fault of a command that the alphabet refuses.
    fn refuse(&self, kind: ErrorKind, cmd: &str, args: &[&str]) -> (f: Fault)
        ensures
            f@ == refused(kind, "Alphabet"@, self@.name, cmd@, str_views(args@)),
    {
        Fault::refused(kind, "Alphabet", self.name.as_str(), cmd, args)
    }

    /// The place of the first character with this name.
    fn position_of_name(&self, name: &str) -> (found: Option<usize>)
        ensures
            match found {
                Some(i) => first_position(self@.names(), name@) == Some(i as int) && i
                    < self@.chars.len(),
                None => first_position(self@.names(), name@) is None,
            },
    {
        let mut i: usize = 0;
        while i < self.chars.len()
            invariant
                i <= self.chars.len(),
                self@.names().len() == self.chars.len(),
                forall|j: int| 0 <= j < i ==> self@.names()[j] != name@,
            decreases self.chars.len() - i,
        {
            if str_equal(self.chars[i].name.as_str(), name) {
                proof {
                    assert(self@.names()[i as int] == self.chars[i as int].name@);
                    lemma_first_position(self@.names(), name@, i as int);
                }
                return Some(i);
            }
            assert(self@.names()[i as int] == self.chars[i as int].name@);
            i += 1;
        }
        proof {
            lemma_no_position(self@.names(), name@);
        }
        None
    }

    /// The place of the first character with this value.
    fn position_of_value(&self, value: u128) -> (found: Option<usize>)
        ensures
            match found {
                Some(i) => first_position(self@.values(), value as nat) == Some(i as int) && i
                    < self@.chars.len(),
                None => first_position(self@.values(), value as nat) is None,
            },
    {
        let mut i: usize = 0;
        while i < self.chars.len()
            invariant
                i <= self.chars.len(),
                self@.values().len() == self.chars.len(),
                forall|j: int| 0 <= j < i ==> self@.values()[j] != value as nat,
            decreases self.chars.len() - i,
        {
            if self.chars[i].value.value() == value {
                proof {
                    assert(self@.values()[i as int] == self.chars[i as int].value@.value);
                    lemma_first_position(self@.values(), value as nat, i as int);
                }
                return Some(i);
            }
            assert(self@.values()[i as int] == self.chars[i as int].value@.value);
            i += 1;
        }
        proof {
            lemma_no_position(self@.values(), value as nat);
        }
        None
    }

    /// What `process_command` does, with the fault not yet tied to a place.
    fn step(&mut self, lineno: usize, cmd: &str, args: &[&str]) -> (r: Result<(), Fault>)
        ensures
            match r {
                Ok(_) => alphabet_step(old(self)@, lineno as nat, cmd@, str_views(args@)) == Ok::<
                    AlphabetView,
                    FaultView,
                >(final(self)@),
                Err(f) => alphabet_step(old(self)@, lineno as nat, cmd@, str_views(args@)) == Err::<
                    AlphabetView,
                    FaultView,
                >(f@) && final(self)@ == old(self)@,
            },
    {
        if str_equal(cmd, "set_char_type") {
            if args.len() != 1 {
                return Err(self.refuse(ErrorKind::MalformedArgs, cmd, args));
            }
            let char_type = args[0];
            if !bare_identifier(char_type) {
                return Err(Fault::bad_type(char_type));
            }
            if self.char_type.is_some() {
                return Err(
                    Fault::about(
                        ErrorKind::DuplicateName,
                        "character type is already set for alphabet: ",
                        self.name.as_str(),
                    ),
                );
            }
            self.char_type = Some(char_type.to_owned());
            Ok(())
        } else if str_equal(cmd, "def_char") {
            if args.len() != 2 {
                return Err(self.refuse(ErrorKind::MalformedArgs, cmd, args));
            }
            let value = parse_literal(args[0])?;
            mint_bare(args[1], Style::Pascal)?;
            if let Some(i) = self.position_of_name(args[1]) {
                let mut message = String::from_str("character name ");
                message.append(args[1]);
                message.append(" is already defined at line ");
                message.append(decimal(self.chars[i].line).as_str());
                assert(self@.chars[i as int] == self.chars[i as int]@);
                return Err(Fault::new(ErrorKind::DuplicateName, message));
            }
            if let Some(i) = self.position_of_value(value.value()) {
                let mut message = String::from_str("character value ");
                message.append(args[0]);
                message.append(" is already defined at line ");
                message.append(decimal(self.chars[i].line).as_str());
                assert(self@.chars[i as int] == self.chars[i as int]@);
                return Err(Fault::new(ErrorKind::DuplicateName, message));
            }
            let def = CharDef { value, name: args[1].to_owned(), line: lineno };
            let ghost before = self.chars@;
            self.chars.push(def);
            proof {
                assert(self.chars@.map_values(|c: CharDef| c@) =~= before.map_values(
                    |c: CharDef| c@,
                ).push(def@));
            }
            Ok(())
        } else {
            Err(self.refuse(ErrorKind::UnknownCommand, cmd, args))
        }
    }

    /// Applies one command of the source to the alphabet: `set_char_type` or
    /// `def_char`. A refused command leaves the alphabet as it was.
    pub fn process_command(&mut self, filename: &str, lineno: usize, cmd: &str, args: &[&str]) -> (r:
        Result<(), CompileError>)
        ensures
            match r {
                Ok(_) => alphabet_step(old(self)@, lineno as nat, cmd@, str_views(args@)) == Ok::<
                    AlphabetView,
                    FaultView,
                >(final(self)@),
                Err(e) => final(self)@ == old(self)@ && (alphabet_step(
                    old(self)@,
                    lineno as nat,
                    cmd@,
                    str_views(args@),
                ) matches Err(f) && e@ == f.at(filename@, lineno as nat)),
            },
            old(self)@.wf() ==> final(self)@.wf(),
    {
        proof {
            if old(self)@.wf() {
                lemma_alphabet_step_wf(old(self)@, lineno as nat, cmd@, str_views(args@));
            }
        }
        match self.step(lineno, cmd, args) {
            Ok(()) => Ok(()),
            Err(f) => Err(f.at(filename, lineno)),
        }
    }

    /// The variants of all characters, or the fault of the first name that
    /// mints to none.
    fn variants(&self) -> (r: Result<Vec<String>, Fault>)
        ensures
            match r {
                Ok(v) => {
                    &&& chars_fault(self@.chars, self@.chars.len()) is None
                    &&& v@.len() == self@.chars.len()
                    &&& forall|i: int|
                        0 <= i < v@.len() ==> (#[trigger] v@[i])@ == variant_of(self@.chars[i])
                },
                Err(f) => chars_fault(self@.chars, self@.chars.len()) == Some(f@),
            },
    {
        let mut v: Vec<String> = Vec::new();
        let mut i: usize = 0;
        while i < self.chars.len()
            invariant
                i <= self.chars.len(),
                self@.chars.len() == self.chars.len(),
                chars_fault(self@.chars, i as nat) is None,
                v@.len() == i,
                forall|j: int| 0 <= j < i ==> (#[trigger] v@[j])@ == variant_of(self@.chars[j]),
            decreases self.chars.len() - i,
        {
            assert(self@.chars[i as int] == self.chars[i as int]@);
            match mint_bare(self.chars[i].name.as_str(), Style::Pascal) {
                Ok(minted) => {
                    v.push(minted);
                },
                Err(f) => {
                    proof {
                        lemma_chars_fault_stays(self@.chars, (i + 1) as nat, self@.chars.len());
                    }
                    return Err(f);
                },
            }
            i += 1;
        }
        Ok(v)
    }

    /// The line of character `i` in one of the tables.
    fn row(&self, kind: Row, i: usize, variant: &str, rep: &str) -> (out: String)
        requires
            i < self@.chars.len(),
            variant@ == variant_of(self@.chars[i as int]),
        ensures
            out@ == row_text(kind, self@.chars[i as int], rep@),
    {
        assert(self@.chars.len() == self.chars.len());
        assert(self@.chars[i as int] == self.chars[i as int]@);
        let c = &self.chars[i];
        match kind {
            Row::Variant => {
                let mut out = String::from_str("    ");
                out.append(variant);
                out.append("(),\n");
                out
            },
            Row::ByName => {
                let mut out = String::from_str("            \"");
                out.append(c.name.as_str());
                out.append("\" => Ok(");
                out.append(variant);
                out.append("()),\n");
                out
            },
            Row::ByValue => {
                let mut out = String::from_str("            ");
                out.append(c.value.text());
                out.append(" => Ok(");
                out.append(variant);
                out.append("()),\n");
                out
            },
            Row::ToValue => {
                let mut out = String::from_str("            ");
                out.append(variant);
                out.append("() => ");
                out.append(c.value.text());
                out.append(" as ");
                out.append(rep);
                out.append(",\n");
                out
            },
        }
    }

    /// The lines of all characters in one of the tables.
    fn rows(&self, kind: Row, variants: &Vec<String>, rep: &str) -> (out: String)
        requires
            variants@.len() == self@.chars.len(),
            forall|i: int|
                0 <= i < variants@.len() ==> (#[trigger] variants@[i])@ == variant_of(
                    self@.chars[i],
                ),
        ensures
            out@ == rows_text(kind, self@.chars, rep@, self@.chars.len()),
    {
        let mut out = String::new();
        let mut i: usize = 0;
        assert(self@.chars.len() == self.chars.len());
        while i < self.chars.len()
            invariant
                i <= self.chars.len(),
                self@.chars.len() == self.chars.len(),
                variants@.len() == self@.chars.len(),
                forall|i: int|
                    0 <= i < variants@.len() ==> (#[trigger] variants@[i])@ == variant_of(
                        self@.chars[i],
                    ),
                out@ == rows_text(kind, self@.chars, rep@, i as nat),
            decreases self.chars.len() - i,
        {
            let row = self.row(kind, i, variants[i].as_str(), rep);
            out.append(row.as_str());
            i += 1;
        }
        out
    }

    /// Renders the alphabet: the emitted code of its character type, its
    /// carrier type and the three conversions. An alphabet without a
    /// character type is refused, and so is one with a name that cannot be
    /// minted.
    pub fn generate(&self) -> (r: Result<String, Fault>)
        ensures
            match r {
                Ok(code) => self@.fault() is None && code@ == self@.text(),
                Err(f) => self@.fault() == Some(f@),
            },
    {
        let rep = match &self.char_type {
            Some(rep) => rep.as_str(),
            None => {
                let mut message = String::from_str("Never called set_char_type on Alphabet (");
                message.append(self.name.as_str());
                message.append(")");
                return Err(Fault::new(ErrorKind::MissingField, message));
            },
        };
        if !bare_identifier(rep) {
            return Err(Fault::bad_type(rep));
        }
        let ty = mint(self.name.as_str(), Style::Pascal)?;
        let ty = ty.as_str();
        let variants = self.variants()?;

        let rows = self.rows(Row::Variant, &variants, rep);
        let mut out = String::from_str("#[derive(Copy, Clone, Debug)]\npub enum Char");
        out.append(ty);
        out.append(" {\n");
        out.append(rows.as_str());
        out.append("}\npub struct Alphabet");
        out.append(ty);
        out.append(" {}\n");
        assert(out@ == enum_text(ty@, self@.rows(Row::Variant)));

        out.append("impl Alphabet");
        out.append(ty);
        out.append(" {\n");

        let rows = self.rows(Row::ByName, &variants, rep);
        let mut part = String::from_str("    fn char_with_name(name: &str) -> Result<Char");
        part.append(ty);
        part.append(", AlphabetError<&str>> {\n        use Char");
        part.append(ty);
        part.append("::*;\n        match name {\n");
        part.append(rows.as_str());
        part.append("            _ => Err(AlphabetError::NameNotFound()),\n        }\n    }\n");
        out.append(part.as_str());

        let rows = self.rows(Row::ByValue, &variants, rep);
        let mut part = String::from_str("    const fn to_char(rep: ");
        part.append(rep);
        part.append(") -> Result<Char");
        part.append(ty);
        part.append(", AlphabetError<");
        part.append(rep);
        part.append(">> {\n        use Char");
        part.append(ty);
        part.append("::*;\n        match rep {\n");
        part.append(rows.as_str());
        part.append(
            "            _ => Err(AlphabetError::UnknownCharacter(rep)),\n        }\n    }\n",
        );
        out.append(part.as_str());

        let rows = self.rows(Row::ToValue, &variants, rep);
        let mut part = String::from_str("    const fn to_val(chr: Char");
        part.append(ty);
        part.append(") -> ");
        part.append(rep);
        part.append(" {\n        use Char");
        part.append(ty);
        part.append("::*;\n        match chr {\n");
        part.append(rows.as_str());
        part.append("        }\n    }\n");
        out.append(part.as_str());
        out.append("}\n");

        let mut part = String::from_str("impl AlphabetLike for Alphabet");
        part.append(ty);
        part.append(" {\n    type CharRep = ");
        part.append(rep);
        part.append(";\n    type CharEnum = Char");
        part.append(ty);
        part.append(";\n    fn char_with_name(name: &str) -> Result<Char");
        part.append(ty);
        part.append(", AlphabetError<&str>> {\n        <Alphabet");
        part.append(ty);
        part.append(">::char_with_name(name)\n    }\n    fn to_char(rep: ");
        part.append(rep);
        part.append(") -> Result<Char");
        part.append(ty);
        part.append(", AlphabetError<");
        part.append(rep);
        part.append(">> {\n        <Alphabet");
        part.append(ty);
        part.append(">::to_char(rep)\n    }\n    fn to_val(chr: Char");
        part.append(ty);
        part.append(") -> ");
        part.append(rep);
        part.append(" {\n        <Alphabet");
        part.append(ty);
        part.append(">::to_val(chr)\n    }\n}\n");
        out.append(part.as_str());
        Ok(out)
    }
}

/// A fault among the first characters stays the fault of the whole list.
pub proof fn lemma_chars_fault_stays(chars: Seq<CharDefView>, n: nat, m: nat)
    requires
        n <= m,
        chars_fault(chars, n) is Some,
    ensures
        chars_fault(chars, m) == chars_fault(chars, n),
    decreases m,
{
    if n < m {
        lemma_chars_fault_stays(chars, n, (m - 1) as nat);
    }
}

} // verus!
