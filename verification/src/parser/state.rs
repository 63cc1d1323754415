//! The sections of a source and the state that the dispatcher is in.

pub mod alphabet;
pub mod clock;
pub mod program;

use crate::error::{refused, refused_in_general, CompileError, ErrorKind, Fault, FaultView};
use crate::parser::state::alphabet::{alphabet_step, Alphabet, AlphabetView};
use crate::parser::state::clock::{clock_step, Clock, ClockView};
use crate::parser::state::program::{program_step, Program, ProgramView};
use crate::text::str_views;
use vstd::prelude::*;
use vstd::string::*;

verus! {

/// The section that the dispatcher is in.
#[derive(Debug)]
pub enum State {
    /// Before the first section.
    General,
    Alphabet(Alphabet),
    Clock(Clock),
    Program(Program),
}

pub enum StateView {
    General,
    Alphabet(AlphabetView),
    Clock(ClockView),
    Program(ProgramView),
}

impl View for State {
    type V = StateView;

    open spec fn view(&self) -> StateView {
        match self {
            State::General => StateView::General,
            State::Alphabet(a) => StateView::Alphabet(a@),
            State::Clock(c) => StateView::Clock(c@),
            State::Program(p) => StateView::Program(p@),
        }
    }
}

impl StateView {
    /// Why the section cannot be rendered, if it cannot.
    pub open spec fn fault(self) -> Option<FaultView> {
        match self {
            StateView::General => None,
            StateView::Alphabet(a) => a.fault(),
            StateView::Clock(c) => c.fault(),
            StateView::Program(p) => p.fault(),
        }
    }

    /// The emitted code of the section; nothing before the first section.
    pub open spec fn text(self) -> Seq<char> {
        match self {
            StateView::General => Seq::<char>::empty(),
            StateView::Alphabet(a) => a.text(),
            StateView::Clock(c) => c.text(),
            StateView::Program(p) => p.text(),
        }
    }

    /// The fault of a command that the section refuses: it names the
    /// section, the command and the arguments.
    pub open spec fn refusal(self, kind: ErrorKind, cmd: Seq<char>, args: Seq<Seq<char>>) -> FaultView {
        match self {
            StateView::General => refused_in_general(kind, cmd, args),
            StateView::Alphabet(a) => refused(kind, "Alphabet"@, a.name, cmd, args),
            StateView::Clock(c) => refused(kind, "Clock"@, c.name, cmd, args),
            StateView::Program(p) => refused(kind, "Program"@, p.name, cmd, args),
        }
    }

    /// The invariant of the open section.
    pub open spec fn wf(self) -> bool {
        match self {
            StateView::General => true,
            StateView::Alphabet(a) => a.wf(),
            StateView::Clock(c) => c.wf(),
            StateView::Program(p) => p.wf(),
        }
    }
}

/// The state after a command on line `line`, or why the command is refused.
/// The command goes to the section that the dispatcher is in; before the
/// first section no command is known.
pub open spec fn state_step(s: StateView, line: nat, cmd: Seq<char>, args: Seq<Seq<char>>) -> Result<
    StateView,
    FaultView,
> {
    match s {
        StateView::General => Err(refused_in_general(ErrorKind::UnknownCommand, cmd, args)),
        StateView::Alphabet(a) => match alphabet_step(a, line, cmd, args) {
            Ok(b) => Ok(StateView::Alphabet(b)),
            Err(f) => Err(f),
        },
        StateView::Clock(c) => match clock_step(c, cmd, args) {
            Ok(d) => Ok(StateView::Clock(d)),
            Err(f) => Err(f),
        },
        StateView::Program(p) => match program_step(p, line, cmd, args) {
            Ok(q) => Ok(StateView::Program(q)),
            Err(f) => Err(f),
        },
    }
}

impl State {
    /// The state at the start of an alphabet.
    pub fn alphabet(name: String) -> (state: Self)
        ensures
            state@ == StateView::Alphabet(
                AlphabetView { name: name@, char_type: None, chars: Seq::empty() },
            ),
            state@.wf(),
    {
        State::Alphabet(Alphabet::new(name))
    }

    /// The state at the start of a clock.
    pub fn clock(name: String) -> (state: Self)
        ensures
            state@ == StateView::Clock(ClockView { name: name@, moment_type: None, repr: None }),
            state@.wf(),
    {
        State::Clock(Clock::new(name))
    }

    /// The state at the start of a program.
    pub fn program(name: String) -> (state: Self)
        ensures
            state@ == StateView::Program(
                ProgramView {
                    name: name@,
                    blocks: Seq::empty(),
                    gateways: Seq::empty(),
                    exits: Seq::empty(),
                },
            ),
            state@.wf(),
    {
        State::Program(Program::new(name))
    }

    /// The fault of a command that the section refuses.
    pub fn refuse(&self, kind: ErrorKind, cmd: &str, args: &[&str]) -> (f: Fault)
        ensures
            f@ == self@.refusal(kind, cmd@, str_views(args@)),
    {
        match self {
            State::General => Fault::refused_in_general(kind, cmd, args),
            State::Alphabet(a) => Fault::refused(kind, "Alphabet", a.name(), cmd, args),
            State::Clock(c) => Fault::refused(kind, "Clock", c.name(), cmd, args),
            State::Program(p) => Fault::refused(kind, "Program", p.name(), cmd, args),
        }
    }

    /// Renders the section that the dispatcher is in. Before the first
    /// section there is nothing to render, and the text is empty.
    pub fn generate(&self) -> (r: Result<String, Fault>)
        ensures
            match r {
                Ok(code) => self@.fault() is None && code@ == self@.text(),
                Err(f) => self@.fault() == Some(f@),
            },
    {
        match self {
            State::General => Ok(String::new()),
            State::Alphabet(alphabet) => alphabet.generate(),
            State::Clock(clock) => clock.generate(),
            State::Program(program) => program.generate(),
        }
    }

    /// Hands a command to the section that the dispatcher is in. A refused
    /// command leaves the state as it was; before the first section every
    /// command is refused as unknown.
    pub fn process_command(&mut self, filename: &str, lineno: usize, cmd: &str, args: &[&str]) -> (r:
        Result<(), CompileError>)
        ensures
            match r {
                Ok(_) => state_step(old(self)@, lineno as nat, cmd@, str_views(args@)) == Ok::<
                    StateView,
                    FaultView,
                >(final(self)@),
                Err(e) => final(self)@ == old(self)@ && (state_step(
                    old(self)@,
                    lineno as nat,
                    cmd@,
                    str_views(args@),
                ) matches Err(f) && e@ == f.at(filename@, lineno as nat)),
            },
            old(self)@.wf() ==> final(self)@.wf(),
    {
        match self {
            State::General => Err(
                Fault::refused_in_general(ErrorKind::UnknownCommand, cmd, args).at(filename, lineno),
            ),
            State::Alphabet(alphabet) => alphabet.process_command(filename, lineno, cmd, args),
            State::Clock(clock) => clock.process_command(filename, lineno, cmd, args),
            State::Program(program) => program.process_command(filename, lineno, cmd, args),
        }
    }
}

} // verus!
