//! What the compiler reports when it refuses a source.

use crate::text::{decimal, decimal_text, quote_list, quoted_list, str_views};
use vstd::prelude::*;
use vstd::string::*;

verus! {

/// The reason for a refusal.
#[derive(Clone, Copy, Debug, PartialEq, Eq, Structural)]
pub enum ErrorKind {
    /// A command that the current section does not know.
    UnknownCommand,
    /// A section was rendered before a setting that it needs was given.
    MissingField,
    /// A name that an instruction refers to is not declared.
    UnknownReference,
    /// A number that is neither decimal nor `0x` hexadecimal.
    MalformedLiteral,
    /// A second definition of something that may be defined once.
    DuplicateName,
    /// A known command with the wrong number or shape of arguments.
    MalformedArgs,
    /// An instruction that the grammar admits and the emitter does not lower.
    NotImplemented,
    /// The pattern engine refused one of the line patterns.
    Pattern,
}

/// A refusal that is not yet tied to a place in the source.
#[derive(Debug)]
pub struct Fault {
    pub kind: ErrorKind,
    pub message: String,
}

pub struct FaultView {
    pub kind: ErrorKind,
    pub message: Seq<char>,
}

impl View for Fault {
    type V = FaultView;

    open spec fn view(&self) -> FaultView {
        FaultView { kind: self.kind, message: self.message@ }
    }
}

/// A refusal together with the file and line that caused it.
#[derive(Debug)]
pub struct CompileError {
    pub kind: ErrorKind,
    pub filename: String,
    pub line: usize,
    pub message: String,
}

pub struct CompileErrorView {
    pub kind: ErrorKind,
    pub filename: Seq<char>,
    pub line: nat,
    pub message: Seq<char>,
}

impl View for CompileError {
    type V = CompileErrorView;

    open spec fn view(&self) -> CompileErrorView {
        CompileErrorView {
            kind: self.kind,
            filename: self.filename@,
            line: self.line as nat,
            message: self.message@,
        }
    }
}

impl FaultView {
    /// This fault, reported for `line` of `filename`.
    pub open spec fn at(self, filename: Seq<char>, line: nat) -> CompileErrorView {
        CompileErrorView { kind: self.kind, filename, line, message: self.message }
    }
}

impl CompileErrorView {
    /// The one-line form `path:line: message`.
    pub open spec fn rendered(self) -> Seq<char> {
        self.filename + ":"@ + decimal_text(self.line) + ": "@ + self.message
    }
}

/// The first of two faults, if there is any.
pub open spec fn or_fault(a: Option<FaultView>, b: Option<FaultView>) -> Option<FaultView> {
    match a {
        Some(f) => Some(f),
        None => b,
    }
}

/// The fault of a command that a section refuses: the message names the
/// section by its kind and name, the command, and the arguments.
pub open spec fn refused(
    kind: ErrorKind,
    what: Seq<char>,
    name: Seq<char>,
    cmd: Seq<char>,
    args: Seq<Seq<char>>,
) -> FaultView {
    FaultView {
        kind,
        message: what + " ("@ + name + ") - unknown command: "@ + cmd + " ("@ + quoted_list(args)
            + ")"@,
    }
}

/// The fault of a command that is refused before the first section.
pub open spec fn refused_in_general(kind: ErrorKind, cmd: Seq<char>, args: Seq<Seq<char>>) -> FaultView {
    FaultView {
        kind,
        message: "General - Unknown command: "@ + cmd + " ("@ + quoted_list(args) + ")"@,
    }
}

/// The fault of a type that is no identifier.
pub open spec fn bad_type(t: Seq<char>) -> FaultView {
    FaultView { kind: ErrorKind::MalformedArgs, message: "not a type: "@ + t }
}

impl Fault {
    /// A fault whose message is a fixed text and then the thing it is about.
    pub fn about(kind: ErrorKind, what: &str, subject: &str) -> (fault: Fault)
        ensures
            fault@ == (FaultView { kind, message: what@ + subject@ }),
    {
        let mut message = String::from_str(what);
        message.append(subject);
        Fault { kind, message }
    }

    /// The fault of a command that a section refuses.
    pub fn refused(kind: ErrorKind, what: &str, name: &str, cmd: &str, args: &[&str]) -> (fault:
        Fault)
        ensures
            fault@ == refused(kind, what@, name@, cmd@, str_views(args@)),
    {
        let mut message = String::from_str(what);
        message.append(" (");
        message.append(name);
        message.append(") - unknown command: ");
        message.append(cmd);
        message.append(" (");
        message.append(quote_list(args).as_str());
        message.append(")");
        Fault { kind, message }
    }

    /// The fault of a command that is refused before the first section.
    pub fn refused_in_general(kind: ErrorKind, cmd: &str, args: &[&str]) -> (fault: Fault)
        ensures
            fault@ == refused_in_general(kind, cmd@, str_views(args@)),
    {
        let mut message = String::from_str("General - Unknown command: ");
        message.append(cmd);
        message.append(" (");
        message.append(quote_list(args).as_str());
        message.append(")");
        Fault { kind, message }
    }

    /// The fault of a type that is no identifier.
    pub fn bad_type(t: &str) -> (fault: Fault)
        ensures
            fault@ == bad_type(t@),
    {
        Fault::about(ErrorKind::MalformedArgs, "not a type: ", t)
    }

    /// A fault of the given kind.
    pub fn new(kind: ErrorKind, message: String) -> (fault: Fault)
        ensures
            fault@ == (FaultView { kind, message: message@ }),
    {
        Fault { kind, message }
    }

    /// Ties the fault to a line of a file.
    pub fn at(self, filename: &str, line: usize) -> (error: CompileError)
        ensures
            error@ == self@.at(filename@, line as nat),
    {
        CompileError { kind: self.kind, filename: filename.to_owned(), line, message: self.message }
    }
}

impl CompileError {
    /// An error of the given kind for `line` of `filename`.
    pub fn new(kind: ErrorKind, filename: &str, line: usize, message: String) -> (error:
        CompileError)
        ensures
            error@ == (CompileErrorView {
                kind,
                filename: filename@,
                line: line as nat,
                message: message@,
            }),
    {
        CompileError { kind, filename: filename.to_owned(), line, message }
    }

    /// Writes the error as `path:line: message`.
    pub fn render(&self) -> (line: String)
        ensures
            line@ == self@.rendered(),
    {
        let mut out = self.filename.clone();
        out.append(":");
        out.append(decimal(self.line).as_str());
        out.append(": ");
        out.append(self.message.as_str());
        out
    }
}

} // verus!
