//! The command dispatcher and the assembler of the artifact.
//!
//! A source is fed line by line. `defalphabet`, `defclock` and `defprogram`
//! close the section that is open, render it, and open a new one; every
//! other command goes to the open section. The artifact is the preamble,
//! then the alphabets, the clocks and the programs, each kind in the order
//! of the source.

pub mod state;

use crate::error::{or_fault, CompileError, CompileErrorView, ErrorKind, Fault, FaultView};
use crate::ident::{mint, mint_fault, Style};
use crate::lexer::{lexed, read_line, Line, LineView};
use crate::parser::state::alphabet::AlphabetView;
use crate::parser::state::clock::ClockView;
use crate::parser::state::program::ProgramView;
use crate::parser::state::{state_step, State, StateView};
use crate::preamble::PREAMBLE;
use crate::text::{str_equal, str_views, views};
use vstd::prelude::*;
use vstd::string::*;

verus! {

/// What a line of the source was taken for.
#[derive(Clone, Copy, Debug, PartialEq, Eq, Structural)]
pub enum LineKind {
    /// A command; it was carried out.
    Command,
    /// A comment.
    Comment,
    /// Neither; the line was passed over.
    Skipped,
}

/// The dispatcher: the open section, and what was rendered so far.
pub struct Parser<'a> {
    filename: &'a str,
    state: State,
    lineno: usize,
    alphabets: Vec<String>,
    clocks: Vec<String>,
    programs: Vec<String>,
    alphabet_names: Vec<String>,
    clock_names: Vec<String>,
}

pub struct ParserView {
    pub filename: Seq<char>,
    /// The open section.
    pub state: StateView,
    /// The number of lines that were fed.
    pub line: nat,
    /// The emitted code of the closed alphabets, clocks and programs.
    pub alphabets: Seq<Seq<char>>,
    pub clocks: Seq<Seq<char>>,
    pub programs: Seq<Seq<char>>,
    /// The names of the closed alphabets and clocks.
    pub alphabet_names: Seq<Seq<char>>,
    pub clock_names: Seq<Seq<char>>,
}

impl<'a> View for Parser<'a> {
    type V = ParserView;

    closed spec fn view(&self) -> ParserView {
        ParserView {
            filename: self.filename@,
            state: self.state@,
            line: self.lineno as nat,
            alphabets: views(self.alphabets@),
            clocks: views(self.clocks@),
            programs: views(self.programs@),
            alphabet_names: views(self.alphabet_names@),
            clock_names: views(self.clock_names@),
        }
    }
}

/// The first `n` sections of one kind, each after a newline.
pub open spec fn sections_text(blocks: Seq<Seq<char>>, n: nat) -> Seq<char>
    decreases n,
{
    if n == 0 {
        Seq::<char>::empty()
    } else {
        sections_text(blocks, (n - 1) as nat) + "\n"@ + blocks[n - 1]
    }
}

/// The section that a command opens, if it opens one.
pub open spec fn section_of(cmd: Seq<char>, name: Seq<char>) -> Option<StateView> {
    if cmd == "defalphabet"@ {
        Some(StateView::Alphabet(AlphabetView { name, char_type: None, chars: Seq::empty() }))
    } else if cmd == "defclock"@ {
        Some(StateView::Clock(ClockView { name, moment_type: None, repr: None }))
    } else if cmd == "defprogram"@ {
        Some(
            StateView::Program(
                ProgramView {
                    name,
                    blocks: Seq::empty(),
                    gateways: Seq::empty(),
                    exits: Seq::empty(),
                },
            ),
        )
    } else {
        None
    }
}

impl ParserView {
    /// The invariant of a dispatcher: that of its open section.
    pub open spec fn wf(self) -> bool {
        self.state.wf()
    }

    /// The dispatcher before the first line of a file.
    pub open spec fn initial(filename: Seq<char>) -> ParserView {
        ParserView {
            filename,
            state: StateView::General,
            line: 0,
            alphabets: Seq::empty(),
            clocks: Seq::empty(),
            programs: Seq::empty(),
            alphabet_names: Seq::empty(),
            clock_names: Seq::empty(),
        }
    }

    /// Why the open section cannot be closed, if it cannot: it cannot be
    /// rendered, or it is a program that names an alphabet or a clock that
    /// no closed section defines.
    pub open spec fn open_fault(self) -> Option<FaultView> {
        match self.state {
            StateView::Program(p) => or_fault(
                p.fault(),
                p.unresolved(self.alphabet_names, self.clock_names),
            ),
            s => s.fault(),
        }
    }

    /// The dispatcher after the open section is closed: its emitted code
    /// stands behind that of the closed sections of its kind.
    pub open spec fn closed(self) -> ParserView {
        match self.state {
            StateView::General => self,
            StateView::Alphabet(a) => ParserView {
                state: StateView::General,
                alphabets: self.alphabets.push(a.text()),
                alphabet_names: self.alphabet_names.push(a.name),
                ..self
            },
            StateView::Clock(c) => ParserView {
                state: StateView::General,
                clocks: self.clocks.push(c.text()),
                clock_names: self.clock_names.push(c.name),
                ..self
            },
            StateView::Program(p) => ParserView {
                state: StateView::General,
                programs: self.programs.push(p.text()),
                ..self
            },
        }
    }

    /// The dispatcher after the open section is closed and `state` opened.
    pub open spec fn started(self, state: StateView) -> Result<ParserView, FaultView> {
        match self.open_fault() {
            Some(f) => Err(f),
            None => Ok(ParserView { state, ..self.closed() }),
        }
    }

    /// The dispatcher after a command, or why the command is refused. A
    /// command that opens a section takes one argument, the name of the
    /// section, which must be one that can be minted; with another number
    /// of arguments it is refused in the name of the open section.
    pub open spec fn dispatched(self, cmd: Seq<char>, args: Seq<Seq<char>>) -> Result<
        ParserView,
        FaultView,
    > {
        match section_of(cmd, args[0]) {
            Some(state) => if args.len() != 1 {
                Err(self.state.refusal(ErrorKind::MalformedArgs, cmd, args))
            } else {
                match mint_fault(args[0], Style::Pascal) {
                    Some(f) => Err(f),
                    None => self.started(state),
                }
            },
            None => match state_step(self.state, self.line, cmd, args) {
                Ok(state) => Ok(ParserView { state, ..self }),
                Err(f) => Err(f),
            },
        }
    }

    /// The dispatcher with one more line counted. The count stays where it
    /// is once it has reached the largest number that the machine holds.
    pub open spec fn counted(self) -> ParserView {
        ParserView {
            line: if self.line < usize::MAX {
                self.line + 1
            } else {
                self.line
            },
            ..self
        }
    }

    /// The dispatcher after a line, with what the line was taken for, or
    /// the error that the line causes. A line that is no command changes
    /// nothing but the count of lines.
    #[verifier::opaque]
    pub open spec fn fed(self, text: Seq<char>) -> Result<(ParserView, LineKind), CompileErrorView> {
        let p = self.counted();
        match lexed(text) {
            Err(f) => Err(f.at(p.filename, p.line)),
            Ok(LineView::Command { cmd, args }) => match p.dispatched(cmd, args) {
                Ok(q) => Ok((q, LineKind::Command)),
                Err(f) => Err(f.at(p.filename, p.line)),
            },
            Ok(LineView::Comment) => Ok((p, LineKind::Comment)),
            Ok(LineView::Other) => Ok((p, LineKind::Skipped)),
        }
    }

    /// The closed sections put together: the preamble, then the alphabets,
    /// the clocks and the programs, each section after a newline.
    pub open spec fn assembled(self) -> Seq<char> {
        PREAMBLE@ + sections_text(self.alphabets, self.alphabets.len()) + sections_text(
            self.clocks,
            self.clocks.len(),
        ) + sections_text(self.programs, self.programs.len())
    }

    /// The artifact at the end of the source: the open section is closed,
    /// and the sections are put together.
    #[verifier::opaque]
    pub open spec fn artifact(self) -> Result<Seq<char>, CompileErrorView> {
        match self.open_fault() {
            Some(f) => Err(f.at(self.filename, self.line)),
            None => Ok(self.closed().assembled()),
        }
    }

    /// The dispatcher after the first `n` of some lines, or the first error.
    pub open spec fn fed_all(self, lines: Seq<Seq<char>>, n: nat) -> Result<
        ParserView,
        CompileErrorView,
    >
        decreases n,
    {
        if n == 0 {
            Ok(self)
        } else {
            match self.fed_all(lines, (n - 1) as nat) {
                Err(e) => Err(e),
                Ok(p) => match p.fed(lines[n - 1]) {
                    Ok((q, _)) => Ok(q),
                    Err(e) => Err(e),
                },
            }
        }
    }
}

/// The artifact of a source, or the first error in it.
pub open spec fn compiled(filename: Seq<char>, lines: Seq<Seq<char>>) -> Result<
    Seq<char>,
    CompileErrorView,
> {
    match ParserView::initial(filename).fed_all(lines, lines.len()) {
        Err(e) => Err(e),
        Ok(p) => p.artifact(),
    }
}

/// Determinism: the artifact is a function of the source. Two sources of
/// the same name that agree line by line give the same artifact, or the
/// same error.
pub proof fn law_same_source_same_artifact(
    filename: Seq<char>,
    first: Seq<Seq<char>>,
    second: Seq<Seq<char>>,
)
    requires
        first.len() == second.len(),
        forall|i: int| 0 <= i < first.len() ==> first[i] == second[i],
    ensures
        compiled(filename, first) == compiled(filename, second),
{
    assert(first =~= second);
}

/// The sections of a longer list are those of the shorter list, as far as
/// the shorter list goes.
pub proof fn lemma_sections_of_longer(blocks: Seq<Seq<char>>, more: Seq<char>, n: nat)
    requires
        n <= blocks.len(),
    ensures
        sections_text(blocks.push(more), n) == sections_text(blocks, n),
    decreases n,
{
    if n > 0 {
        lemma_sections_of_longer(blocks, more, (n - 1) as nat);
    }
}

/// The sections of one kind, each after a newline.
fn sections(blocks: &Vec<String>) -> (out: String)
    ensures
        out@ == sections_text(views(blocks@), blocks@.len()),
{
    let mut out = String::new();
    let mut i: usize = 0;
    while i < blocks.len()
        invariant
            i <= blocks.len(),
            out@ == sections_text(views(blocks@), i as nat),
        decreases blocks.len() - i,
    {
        assert(views(blocks@)[i as int] == blocks[i as int]@);
        out.append("\n");
        out.append(blocks[i].as_str());
        i += 1;
    }
    out
}

impl<'a> Parser<'a> {
    /// A dispatcher before the first line of the file `filename`.
    pub fn new(filename: &'a str) -> (parser: Self)
        ensures
            parser@ == ParserView::initial(filename@),
            parser@.wf(),
    {
        let parser = Parser {
            filename,
            state: State::General,
            lineno: 0,
            alphabets: Vec::new(),
            clocks: Vec::new(),
            programs: Vec::new(),
            alphabet_names: Vec::new(),
            clock_names: Vec::new(),
        };
        assert(parser@.alphabets =~= Seq::<Seq<char>>::empty());
        assert(parser@.clocks =~= Seq::<Seq<char>>::empty());
        assert(parser@.programs =~= Seq::<Seq<char>>::empty());
        assert(parser@.alphabet_names =~= Seq::<Seq<char>>::empty());
        assert(parser@.clock_names =~= Seq::<Seq<char>>::empty());
        parser
    }

    /// The number of lines that were fed.
    pub fn line(&self) -> (n: usize)
        ensures
            n == self@.line,
    {
        self.lineno
    }

    /// Renders the open section.
    fn render_open(&self) -> (r: Result<String, Fault>)
        ensures
            match r {
                Ok(code) => self@.open_fault() is None && code@ == self@.state.text(),
                Err(f) => self@.open_fault() == Some(f@),
            },
    {
        let code = self.state.generate()?;
        if let State::Program(program) = &self.state {
            program.check_references(&self.alphabet_names, &self.clock_names)?;
        }
        Ok(code)
    }

    /// Closes the open section and opens `state`. Where the open section
    /// cannot be closed, the dispatcher stays as it was.
    pub fn start_state(&mut self, state: State) -> (r: Result<(), CompileError>)
        ensures
            match r {
                Ok(_) => old(self)@.started(state@) == Ok::<ParserView, FaultView>(final(self)@),
                Err(e) => final(self)@ == old(self)@ && (old(self)@.started(state@) matches Err(f)
                    && e@ == f.at(old(self)@.filename, old(self)@.line)),
            },
            old(self)@.wf() && state@.wf() ==> final(self)@.wf(),
    {
        let code = match self.render_open() {
            Ok(code) => code,
            Err(f) => {
                return Err(f.at(self.filename, self.lineno));
            },
        };
        let ghost before = self@;
        match &self.state {
            State::General => {},
            State::Alphabet(alphabet) => {
                let name = alphabet.name().to_owned();
                self.alphabets.push(code);
                self.alphabet_names.push(name);
                assert(self@.alphabets =~= before.alphabets.push(code@));
                assert(self@.alphabet_names =~= before.alphabet_names.push(name@));
            },
            State::Clock(clock) => {
                let name = clock.name().to_owned();
                self.clocks.push(code);
                self.clock_names.push(name);
                assert(self@.clocks =~= before.clocks.push(code@));
                assert(self@.clock_names =~= before.clock_names.push(name@));
            },
            State::Program(_) => {
                self.programs.push(code);
                assert(self@.programs =~= before.programs.push(code@));
            },
        }
        self.state = state;
        Ok(())
    }

    /// Carries out one command: `defalphabet`, `defclock` and `defprogram`
    /// close the open section and open a new one, every other command goes
    /// to the open section. A refused command leaves the dispatcher as it
    /// was.
    pub fn dispatch(&mut self, cmd: &str, args: &[&str]) -> (r: Result<(), CompileError>)
        ensures
            match r {
                Ok(_) => old(self)@.dispatched(cmd@, str_views(args@)) == Ok::<
                    ParserView,
                    FaultView,
                >(final(self)@),
                Err(e) => final(self)@ == old(self)@ && (old(self)@.dispatched(
                    cmd@,
                    str_views(args@),
                ) matches Err(f) && e@ == f.at(old(self)@.filename, old(self)@.line)),
            },
            old(self)@.wf() ==> final(self)@.wf(),
    {
        let alphabet = str_equal(cmd, "defalphabet");
        let clock = !alphabet && str_equal(cmd, "defclock");
        let program = !alphabet && !clock && str_equal(cmd, "defprogram");
        if alphabet || clock || program {
            if args.len() != 1 {
                return Err(
                    self.state.refuse(ErrorKind::MalformedArgs, cmd, args).at(
                        self.filename,
                        self.lineno,
                    ),
                );
            }
            if let Err(f) = mint(args[0], Style::Pascal) {
                return Err(f.at(self.filename, self.lineno));
            }
            let name = args[0].to_owned();
            let state = if alphabet {
                State::alphabet(name)
            } else if clock {
                State::clock(name)
            } else {
                State::program(name)
            };
            assert(section_of(cmd@, str_views(args@)[0]) == Some(state@));
            self.start_state(state)
        } else {
            assert(section_of(cmd@, str_views(args@)[0]) is None);
            self.state.process_command(self.filename, self.lineno, cmd, args)
        }
    }

    /// Feeds one line of the source: the line is counted, and carried out
    /// if it is a command. A line that causes an error is counted and
    /// changes nothing else.
    pub fn parse_line(&mut self, line: String) -> (r: Result<LineKind, CompileError>)
        ensures
            match r {
                Ok(kind) => old(self)@.fed(line@) == Ok::<(ParserView, LineKind), CompileErrorView>(
                    (final(self)@, kind),
                ),
                Err(e) => old(self)@.fed(line@) == Err::<(ParserView, LineKind), CompileErrorView>(
                    e@,
                ) && final(self)@ == old(self)@.counted(),
            },
            old(self)@.wf() ==> final(self)@.wf(),
    {
        reveal(ParserView::fed);
        if self.lineno < usize::MAX {
            self.lineno += 1;
        }
        match read_line(line.as_str()) {
            Err(f) => Err(f.at(self.filename, self.lineno)),
            Ok(Line::Command { cmd, args }) => {
                let mut slices: Vec<&str> = Vec::new();
                let mut i: usize = 0;
                while i < args.len()
                    invariant
                        i <= args.len(),
                        slices@.len() == i,
                        forall|j: int| 0 <= j < i ==> (#[trigger] slices@[j])@ == args@[j]@,
                    decreases args.len() - i,
                {
                    slices.push(args[i].as_str());
                    i += 1;
                }
                assert(str_views(slices@) =~= views(args@));
                match self.dispatch(cmd.as_str(), slices.as_slice()) {
                    Ok(_) => Ok(LineKind::Command),
                    Err(e) => Err(e),
                }
            },
            Ok(Line::Comment) => Ok(LineKind::Comment),
            Ok(Line::Other) => Ok(LineKind::Skipped),
        }
    }

    /// Assembles the artifact at the end of the source: the preamble, then
    /// the alphabets, the clocks and the programs, each kind in the order of
    /// the source and each section after a newline. The open section is
    /// rendered with the others; where it cannot be closed, its fault is
    /// reported for the last line that was fed.
    pub fn generate(&self) -> (r: Result<String, CompileError>)
        ensures
            match r {
                Ok(code) => self@.artifact() == Ok::<Seq<char>, CompileErrorView>(code@),
                Err(e) => self@.artifact() == Err::<Seq<char>, CompileErrorView>(e@),
            },
    {
        reveal(ParserView::artifact);
        let code = match self.render_open() {
            Ok(code) => code,
            Err(f) => {
                return Err(f.at(self.filename, self.lineno));
            },
        };
        let mut alphabets = sections(&self.alphabets);
        let mut clocks = sections(&self.clocks);
        let mut programs = sections(&self.programs);
        match &self.state {
            State::General => {},
            State::Alphabet(_) => {
                alphabets.append("\n");
                alphabets.append(code.as_str());
                proof {
                    lemma_sections_of_longer(self@.alphabets, code@, self@.alphabets.len());
                }
            },
            State::Clock(_) => {
                clocks.append("\n");
                clocks.append(code.as_str());
                proof {
                    lemma_sections_of_longer(self@.clocks, code@, self@.clocks.len());
                }
            },
            State::Program(_) => {
                programs.append("\n");
                programs.append(code.as_str());
                proof {
                    lemma_sections_of_longer(self@.programs, code@, self@.programs.len());
                }
            },
        }
        let mut out = String::from_str(PREAMBLE);
        out.append(alphabets.as_str());
        out.append(clocks.as_str());
        out.append(programs.as_str());
        Ok(out)
    }
}

/// Compiles a source, given as its lines, to the artifact. Compilation ends
/// at the first line that causes an error.
pub fn compile(filename: &str, lines: &Vec<String>) -> (r: Result<String, CompileError>)
    ensures
        match r {
            Ok(code) => compiled(filename@, views(lines@)) == Ok::<Seq<char>, CompileErrorView>(
                code@,
            ),
            Err(e) => compiled(filename@, views(lines@)) == Err::<Seq<char>, CompileErrorView>(e@),
        },
{
    let mut parser = Parser::new(filename);
    let mut i: usize = 0;
    while i < lines.len()
        invariant
            i <= lines.len(),
            ParserView::initial(filename@).fed_all(views(lines@), i as nat) == Ok::<
                ParserView,
                CompileErrorView,
            >(parser@),
        decreases lines.len() - i,
    {
        assert(views(lines@)[i as int] == lines[i as int]@);
        match parser.parse_line(lines[i].clone()) {
            Ok(_) => {},
            Err(e) => {
                proof {
                    lemma_fed_all_error(
                        ParserView::initial(filename@),
                        views(lines@),
                        (i + 1) as nat,
                        lines@.len(),
                    );
                }
                return Err(e);
            },
        }
        i += 1;
    }
    parser.generate()
}

/// An error among the first lines stays the error of the whole source.
pub proof fn lemma_fed_all_error(p: ParserView, lines: Seq<Seq<char>>, n: nat, m: nat)
    requires
        n <= m,
        p.fed_all(lines, n) is Err,
    ensures
        p.fed_all(lines, m) == p.fed_all(lines, n),
    decreases m,
{
    if n < m {
        lemma_fed_all_error(p, lines, n, (m - 1) as nat);
    }
}

} // verus!
