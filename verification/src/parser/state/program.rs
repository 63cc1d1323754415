//! Programs: named records of gateways and exits with the labelled blocks of
//! instructions that work on them.

pub mod emit;

use crate::error::{
    or_fault, refused, CompileError, ErrorKind, Fault, FaultView,
};
use crate::ident::{bare_mint_fault, mint, mint_bare, mint_fault, Style};
use crate::literal::{check_literal, literal_fault, literal_value, parse_literal};
use crate::text::{
    chars_of, decimal, decimal_text, distinct, first_position, lemma_absent,
    lemma_distinct_push, lemma_first_position, lemma_no_position, debug_str, quoted, str_equal,
    str_views,
};
use vstd::prelude::*;
use vstd::string::*;

verus! {

/// An argument of an instruction, tagged with what it names.
#[derive(Debug)]
pub enum ArgType {
    Name(String),
    Label(String),
    Gateway(String),
    Exit(String),
    Alphabet(String),
    Clock(String),
    Moment(String),
    Character(String),
    Number(String),
    Program(String),
}

pub enum ArgView {
    Name(Seq<char>),
    Label(Seq<char>),
    Gateway(Seq<char>),
    Exit(Seq<char>),
    Alphabet(Seq<char>),
    Clock(Seq<char>),
    Moment(Seq<char>),
    Character(Seq<char>),
    Number(Seq<char>),
    Program(Seq<char>),
}

impl View for ArgType {
    type V = ArgView;

    open spec fn view(&self) -> ArgView {
        match self {
            ArgType::Name(s) => ArgView::Name(s@),
            ArgType::Label(s) => ArgView::Label(s@),
            ArgType::Gateway(s) => ArgView::Gateway(s@),
            ArgType::Exit(s) => ArgView::Exit(s@),
            ArgType::Alphabet(s) => ArgView::Alphabet(s@),
            ArgType::Clock(s) => ArgView::Clock(s@),
            ArgType::Moment(s) => ArgView::Moment(s@),
            ArgType::Character(s) => ArgView::Character(s@),
            ArgType::Number(s) => ArgView::Number(s@),
            ArgType::Program(s) => ArgView::Program(s@),
        }
    }
}

/// The text of an argument, whatever it names.
pub open spec fn arg_text(a: ArgView) -> Seq<char> {
    match a {
        ArgView::Name(s) => s,
        ArgView::Label(s) => s,
        ArgView::Gateway(s) => s,
        ArgView::Exit(s) => s,
        ArgView::Alphabet(s) => s,
        ArgView::Clock(s) => s,
        ArgView::Moment(s) => s,
        ArgView::Character(s) => s,
        ArgView::Number(s) => s,
        ArgView::Program(s) => s,
    }
}

/// One instruction of a block.
#[derive(Debug)]
pub enum Instruction {
    /// `start_moment MOMENT,EXIT`: the moment that the exit's clock starts at.
    StartMoment(ArgType, ArgType),
    /// `push_moment MOMENT,EXIT`: a moment onto the exit.
    PushMoment(ArgType, ArgType),
    /// `push_char NAME,EXIT`: a character of the exit's alphabet, by its name.
    PushChar(ArgType, ArgType),
    /// `push_val VALUE,EXIT`: a character of the exit's alphabet, by its value.
    PushVal(ArgType, ArgType),
    /// `jlt LABEL,Time(A),Time(B)`: to the label, if gateway A is earlier.
    JumpEarlier(ArgType, ArgType, ArgType),
    /// `jgt LABEL,Time(A),Time(B)`: to the label, if gateway A is later.
    JumpLater(ArgType, ArgType, ArgType),
    /// `forward_duration GATEWAY,EXIT`: what the gateway holds up to and with
    /// its next moment, to the exit.
    ForwardDuration(ArgType, ArgType),
    /// `connect PROGRAM(GATEWAY|..),NAME`.
    Connect(ArgType, ArgType),
    /// `reg_exit_gateway NAME(EXIT),NAME`.
    ExitGateway(ArgType, ArgType),
}

pub enum InstructionView {
    StartMoment(ArgView, ArgView),
    PushMoment(ArgView, ArgView),
    PushChar(ArgView, ArgView),
    PushVal(ArgView, ArgView),
    JumpEarlier(ArgView, ArgView, ArgView),
    JumpLater(ArgView, ArgView, ArgView),
    ForwardDuration(ArgView, ArgView),
    Connect(ArgView, ArgView),
    ExitGateway(ArgView, ArgView),
}

impl View for Instruction {
    type V = InstructionView;

    open spec fn view(&self) -> InstructionView {
        match self {
            Instruction::StartMoment(a, b) => InstructionView::StartMoment(a@, b@),
            Instruction::PushMoment(a, b) => InstructionView::PushMoment(a@, b@),
            Instruction::PushChar(a, b) => InstructionView::PushChar(a@, b@),
            Instruction::PushVal(a, b) => InstructionView::PushVal(a@, b@),
            Instruction::JumpEarlier(a, b, c) => InstructionView::JumpEarlier(a@, b@, c@),
            Instruction::JumpLater(a, b, c) => InstructionView::JumpLater(a@, b@, c@),
            Instruction::ForwardDuration(a, b) => InstructionView::ForwardDuration(a@, b@),
            Instruction::Connect(a, b) => InstructionView::Connect(a@, b@),
            Instruction::ExitGateway(a, b) => InstructionView::ExitGateway(a@, b@),
        }
    }
}

/// The views of a sequence of instructions.
pub open spec fn instruction_views(v: Seq<Instruction>) -> Seq<InstructionView> {
    v.map_values(|i: Instruction| i@)
}

/// A gateway or an exit, as `reg_gateway` or `reg_exit` declared it.
#[derive(Debug)]
pub struct StreamDecl {
    name: String,
    alphabet: String,
    clock: String,
    size: String,
    line: usize,
}

pub struct StreamDeclView {
    pub name: Seq<char>,
    /// The name of the alphabet of the stream's characters.
    pub alphabet: Seq<char>,
    /// The name of the clock of the stream's moments.
    pub clock: Seq<char>,
    /// The number of items that the stream can hold, as the source wrote it.
    pub size: Seq<char>,
    /// The line of the declaration.
    pub line: nat,
}

impl View for StreamDecl {
    type V = StreamDeclView;

    closed spec fn view(&self) -> StreamDeclView {
        StreamDeclView {
            name: self.name@,
            alphabet: self.alphabet@,
            clock: self.clock@,
            size: self.size@,
            line: self.line as nat,
        }
    }
}

/// A labelled block of instructions.
#[derive(Debug)]
pub struct Block {
    name: String,
    instructions: Vec<Instruction>,
}

pub struct BlockView {
    pub name: Seq<char>,
    pub instructions: Seq<InstructionView>,
}

impl View for Block {
    type V = BlockView;

    closed spec fn view(&self) -> BlockView {
        BlockView { name: self.name@, instructions: instruction_views(self.instructions@) }
    }
}

/// A program under construction.
#[derive(Debug)]
pub struct Program {
    name: String,
    instructions: Vec<Block>,
    gateways: Vec<StreamDecl>,
    exits: Vec<StreamDecl>,
}

pub struct ProgramView {
    pub name: Seq<char>,
    /// The blocks in the order of the source; the first is `root`.
    pub blocks: Seq<BlockView>,
    pub gateways: Seq<StreamDeclView>,
    pub exits: Seq<StreamDeclView>,
}

impl View for Program {
    type V = ProgramView;

    closed spec fn view(&self) -> ProgramView {
        ProgramView {
            name: self.name@,
            blocks: self.instructions@.map_values(|b: Block| b@),
            gateways: self.gateways@.map_values(|d: StreamDecl| d@),
            exits: self.exits@.map_values(|d: StreamDecl| d@),
        }
    }
}

/// The names of a list of declarations.
pub open spec fn decl_names(decls: Seq<StreamDeclView>) -> Seq<Seq<char>> {
    decls.map_values(|d: StreamDeclView| d.name)
}

impl ProgramView {
    /// The names of the blocks, in the order of the source.
    pub open spec fn labels(self) -> Seq<Seq<char>> {
        self.blocks.map_values(|b: BlockView| b.name)
    }

    /// The program with one more instruction at the end of its last block.
    pub open spec fn with_instruction(self, i: InstructionView) -> ProgramView
        recommends
            self.blocks.len() > 0,
    {
        let last = self.blocks.last();
        ProgramView {
            blocks: self.blocks.drop_last().push(
                BlockView { instructions: last.instructions.push(i), ..last },
            ),
            ..self
        }
    }

    /// The program with the block `root` opened, if no block is open yet.
    pub open spec fn opened(self) -> ProgramView {
        if self.blocks.len() == 0 {
            ProgramView {
                blocks: seq![
                    BlockView { name: "root"@, instructions: Seq::<InstructionView>::empty() },
                ],
                ..self
            }
        } else {
            self
        }
    }
}

/// The fault of a buffer size that is zero.
pub open spec fn empty_buffer(size: Seq<char>) -> FaultView {
    FaultView { kind: ErrorKind::MalformedLiteral, message: "buffer size is not positive: "@ + size }
}

/// The fault of an argument that is not of the form `Time(GATEWAY)`.
pub open spec fn not_a_time(arg: Seq<char>) -> FaultView {
    FaultView { kind: ErrorKind::MalformedArgs, message: "not of the form Time(GATEWAY): "@ + arg }
}

/// The fault of a stream name that was declared before, on `line`.
pub open spec fn duplicate_stream(name: Seq<char>, line: nat) -> FaultView {
    FaultView {
        kind: ErrorKind::DuplicateName,
        message: "stream "@ + name + " is already registered at line "@ + decimal_text(line),
    }
}

/// The fault of a label that names a block a second time.
pub open spec fn duplicate_label(name: Seq<char>) -> FaultView {
    FaultView { kind: ErrorKind::DuplicateName, message: "label is already defined: "@ + name }
}

/// The kind of an argument, as it is shown in a message.
pub open spec fn arg_kind(a: ArgView) -> Seq<char> {
    match a {
        ArgView::Name(_) => "Name"@,
        ArgView::Label(_) => "Label"@,
        ArgView::Gateway(_) => "Gateway"@,
        ArgView::Exit(_) => "Exit"@,
        ArgView::Alphabet(_) => "Alphabet"@,
        ArgView::Clock(_) => "Clock"@,
        ArgView::Moment(_) => "Moment"@,
        ArgView::Character(_) => "Character"@,
        ArgView::Number(_) => "Number"@,
        ArgView::Program(_) => "Program"@,
    }
}

/// An argument as it is shown in a message: its kind, and its text in
/// quotes between round brackets.
pub open spec fn arg_shown(a: ArgView) -> Seq<char> {
    arg_kind(a) + "("@ + quoted(arg_text(a)) + ")"@
}

/// The name of an instruction, as it is shown in a message.
pub open spec fn instruction_name(i: InstructionView) -> Seq<char> {
    match i {
        InstructionView::StartMoment(_, _) => "StartMoment"@,
        InstructionView::PushMoment(_, _) => "PushMoment"@,
        InstructionView::PushChar(_, _) => "PushChar"@,
        InstructionView::PushVal(_, _) => "PushVal"@,
        InstructionView::JumpEarlier(_, _, _) => "JumpEarlier"@,
        InstructionView::JumpLater(_, _, _) => "JumpLater"@,
        InstructionView::ForwardDuration(_, _) => "ForwardDuration"@,
        InstructionView::Connect(_, _) => "Connect"@,
        InstructionView::ExitGateway(_, _) => "ExitGateway"@,
    }
}

/// The arguments of an instruction as they are shown in a message, with a
/// comma and a blank between them.
pub open spec fn arguments_shown(i: InstructionView) -> Seq<char> {
    match i {
        InstructionView::StartMoment(a, b) => arg_shown(a) + ", "@ + arg_shown(b),
        InstructionView::PushMoment(a, b) => arg_shown(a) + ", "@ + arg_shown(b),
        InstructionView::PushChar(a, b) => arg_shown(a) + ", "@ + arg_shown(b),
        InstructionView::PushVal(a, b) => arg_shown(a) + ", "@ + arg_shown(b),
        InstructionView::JumpEarlier(a, b, c) => arg_shown(a) + ", "@ + arg_shown(b) + ", "@
            + arg_shown(c),
        InstructionView::JumpLater(a, b, c) => arg_shown(a) + ", "@ + arg_shown(b) + ", "@
            + arg_shown(c),
        InstructionView::ForwardDuration(a, b) => arg_shown(a) + ", "@ + arg_shown(b),
        InstructionView::Connect(a, b) => arg_shown(a) + ", "@ + arg_shown(b),
        InstructionView::ExitGateway(a, b) => arg_shown(a) + ", "@ + arg_shown(b),
    }
}

/// An instruction as it is shown in a message: its name, and its arguments
/// between round brackets.
pub open spec fn instruction_shown(i: InstructionView) -> Seq<char> {
    instruction_name(i) + "("@ + arguments_shown(i) + ")"@
}

/// The fault of an instruction that the emitter does not lower.
pub open spec fn not_implemented(i: InstructionView) -> FaultView {
    FaultView {
        kind: ErrorKind::NotImplemented,
        message: "Not implemented: "@ + instruction_shown(i),
    }
}

/// The gateway that an argument of the form `Time(GATEWAY)` names.
pub open spec fn time_ref(arg: Seq<char>) -> Option<Seq<char>> {
    if arg.len() >= 6 && arg.subrange(0, 5) == seq!['T', 'i', 'm', 'e', '('] && arg.last() == ')' {
        Some(arg.subrange(5, arg.len() - 1))
    } else {
        None
    }
}

/// Why a declaration of a gateway or an exit is refused, if it is: one of
/// its three names cannot be minted, or its size is no positive literal.
pub open spec fn decl_fault(
    name: Seq<char>,
    alphabet: Seq<char>,
    clock: Seq<char>,
    size: Seq<char>,
) -> Option<FaultView> {
    or_fault(
        mint_fault(name, Style::Snake),
        or_fault(
            mint_fault(alphabet, Style::Pascal),
            or_fault(
                mint_fault(clock, Style::Pascal),
                or_fault(
                    literal_fault(size),
                    if literal_value(size) == 0 {
                        Some(empty_buffer(size))
                    } else {
                        None
                    },
                ),
            ),
        ),
    )
}

/// Why an instruction is refused whatever program it stands in, if it is:
/// its arguments are not of the kinds that the instruction takes, a literal
/// is malformed, or a name cannot be minted.
pub open spec fn shape_fault(i: InstructionView) -> Option<FaultView> {
    match i {
        InstructionView::StartMoment(ArgView::Moment(m), ArgView::Exit(e)) => or_fault(
            literal_fault(m),
            mint_fault(e, Style::Snake),
        ),
        InstructionView::PushMoment(ArgView::Moment(m), ArgView::Exit(e)) => or_fault(
            literal_fault(m),
            mint_fault(e, Style::Snake),
        ),
        InstructionView::PushChar(ArgView::Character(c), ArgView::Exit(e)) => or_fault(
            bare_mint_fault(c, Style::Pascal),
            mint_fault(e, Style::Snake),
        ),
        InstructionView::PushVal(ArgView::Number(v), ArgView::Exit(e)) => or_fault(
            literal_fault(v),
            mint_fault(e, Style::Snake),
        ),
        InstructionView::ForwardDuration(ArgView::Gateway(g), ArgView::Exit(e)) => or_fault(
            mint_fault(g, Style::Snake),
            mint_fault(e, Style::Snake),
        ),
        InstructionView::JumpEarlier(
            ArgView::Label(l),
            ArgView::Gateway(a),
            ArgView::Gateway(b),
        ) => or_fault(
            mint_fault(l, Style::Snake),
            or_fault(mint_fault(a, Style::Snake), mint_fault(b, Style::Snake)),
        ),
        InstructionView::JumpLater(
            ArgView::Label(l),
            ArgView::Gateway(a),
            ArgView::Gateway(b),
        ) => or_fault(
            mint_fault(l, Style::Snake),
            or_fault(mint_fault(a, Style::Snake), mint_fault(b, Style::Snake)),
        ),
        InstructionView::Connect(ArgView::Program(_), ArgView::Name(_)) => None,
        InstructionView::ExitGateway(ArgView::Exit(_), ArgView::Gateway(_)) => None,
        _ => Some(not_implemented(i)),
    }
}

/// The instruction that a command of two arguments stands for, if it stands
/// for one.
pub open spec fn instruction_of2(cmd: Seq<char>, a: Seq<char>, b: Seq<char>) -> Option<
    InstructionView,
> {
    if cmd == "start_moment"@ {
        Some(InstructionView::StartMoment(ArgView::Moment(a), ArgView::Exit(b)))
    } else if cmd == "push_moment"@ {
        Some(InstructionView::PushMoment(ArgView::Moment(a), ArgView::Exit(b)))
    } else if cmd == "push_char"@ {
        Some(InstructionView::PushChar(ArgView::Character(a), ArgView::Exit(b)))
    } else if cmd == "push_val"@ {
        Some(InstructionView::PushVal(ArgView::Number(a), ArgView::Exit(b)))
    } else if cmd == "forward_duration"@ {
        Some(InstructionView::ForwardDuration(ArgView::Gateway(a), ArgView::Exit(b)))
    } else if cmd == "connect"@ {
        Some(InstructionView::Connect(ArgView::Program(a), ArgView::Name(b)))
    } else if cmd == "reg_exit_gateway"@ {
        Some(InstructionView::ExitGateway(ArgView::Exit(a), ArgView::Gateway(b)))
    } else {
        None
    }
}

/// Whether the command is one of the two conditional jumps.
pub open spec fn is_jump(cmd: Seq<char>) -> bool {
    cmd == "jlt"@ || cmd == "jgt"@
}

/// The jump that a command stands for, with the gateways still written as
/// `Time(GATEWAY)`.
pub open spec fn jump_of(cmd: Seq<char>, label: Seq<char>, a: Seq<char>, b: Seq<char>) -> Result<
    InstructionView,
    FaultView,
> {
    match time_ref(a) {
        None => Err(not_a_time(a)),
        Some(ga) => match time_ref(b) {
            None => Err(not_a_time(b)),
            Some(gb) => if cmd == "jlt"@ {
                Ok(
                    InstructionView::JumpEarlier(
                        ArgView::Label(label),
                        ArgView::Gateway(ga),
                        ArgView::Gateway(gb),
                    ),
                )
            } else {
                Ok(
                    InstructionView::JumpLater(
                        ArgView::Label(label),
                        ArgView::Gateway(ga),
                        ArgView::Gateway(gb),
                    ),
                )
            },
        },
    }
}

/// An instruction at the end of the last block, unless its shape is refused.
pub open spec fn append_checked(p: ProgramView, i: InstructionView) -> Result<
    ProgramView,
    FaultView,
> {
    match shape_fault(i) {
        Some(f) => Err(f),
        None => Ok(p.opened().with_instruction(i)),
    }
}

/// A new gateway (`gateway` is true) or exit, unless the declaration is
/// refused or the name is registered already.
pub open spec fn register(p: ProgramView, gateway: bool, line: nat, args: Seq<Seq<char>>) -> Result<
    ProgramView,
    FaultView,
> {
    match decl_fault(args[0], args[1], args[2], args[3]) {
        Some(f) => Err(f),
        None => match first_position(decl_names(p.gateways), args[0]) {
            Some(i) => Err(duplicate_stream(args[0], p.gateways[i].line)),
            None => match first_position(decl_names(p.exits), args[0]) {
                Some(i) => Err(duplicate_stream(args[0], p.exits[i].line)),
                None => {
                    let decl = StreamDeclView {
                        name: args[0],
                        alphabet: args[1],
                        clock: args[2],
                        size: args[3],
                        line,
                    };
                    if gateway {
                        Ok(ProgramView { gateways: p.gateways.push(decl), ..p.opened() })
                    } else {
                        Ok(ProgramView { exits: p.exits.push(decl), ..p.opened() })
                    }
                },
            },
        },
    }
}

/// The program after a command on line `line`, or why the command is
/// refused.
///
/// `reg_gateway` and `reg_exit` declare a stream. `label` closes the current
/// block and opens a new one; it is not accepted as the first command of a
/// program. Every other command is an instruction and goes to the end of the
/// current block. The first accepted command opens the block `root`.
pub open spec fn program_step(p: ProgramView, line: nat, cmd: Seq<char>, args: Seq<Seq<char>>) -> Result<
    ProgramView,
    FaultView,
> {
    if cmd == "reg_gateway"@ || cmd == "reg_exit"@ {
        if args.len() != 4 {
            Err(refused(ErrorKind::MalformedArgs, "Program"@, p.name, cmd, args))
        } else {
            register(p, cmd == "reg_gateway"@, line, args)
        }
    } else if cmd == "label"@ {
        if args.len() != 1 {
            Err(refused(ErrorKind::MalformedArgs, "Program"@, p.name, cmd, args))
        } else if p.blocks.len() == 0 {
            Err(refused(ErrorKind::UnknownCommand, "Program"@, p.name, cmd, args))
        } else {
            match mint_fault(args[0], Style::Snake) {
                Some(f) => Err(f),
                None => if first_position(p.labels(), args[0]) is Some {
                    Err(duplicate_label(args[0]))
                } else {
                    Ok(
                        ProgramView {
                            blocks: p.blocks.push(
                                BlockView {
                                    name: args[0],
                                    instructions: Seq::<InstructionView>::empty(),
                                },
                            ),
                            ..p
                        },
                    )
                },
            }
        }
    } else if is_jump(cmd) {
        if args.len() != 3 {
            Err(refused(ErrorKind::MalformedArgs, "Program"@, p.name, cmd, args))
        } else {
            match jump_of(cmd, args[0], args[1], args[2]) {
                Err(f) => Err(f),
                Ok(i) => append_checked(p, i),
            }
        }
    } else {
        match instruction_of2(cmd, args[0], args[1]) {
            None => Err(refused(ErrorKind::UnknownCommand, "Program"@, p.name, cmd, args)),
            Some(i) => if args.len() != 2 {
                Err(refused(ErrorKind::MalformedArgs, "Program"@, p.name, cmd, args))
            } else {
                append_checked(p, i)
            },
        }
    }
}

/// Whether a declaration is one that `reg_gateway` and `reg_exit` accept.
pub open spec fn decl_ok(d: StreamDeclView) -> bool {
    decl_fault(d.name, d.alphabet, d.clock, d.size) is None
}

impl ProgramView {
    /// The invariant of a program: no two streams have one name, whether
    /// gateways or exits, every stream has names that can be minted and a
    /// size that is a positive literal, no two blocks have one name, the
    /// first block is `root`, and every instruction is of good shape.
    pub open spec fn wf(self) -> bool {
        &&& distinct(decl_names(self.gateways))
        &&& distinct(decl_names(self.exits))
        &&& forall|i: int, j: int|
            0 <= i < self.gateways.len() && 0 <= j < self.exits.len() ==> (
            #[trigger] self.gateways[i]).name != (#[trigger] self.exits[j]).name
        &&& forall|i: int| 0 <= i < self.gateways.len() ==> decl_ok(#[trigger] self.gateways[i])
        &&& forall|i: int| 0 <= i < self.exits.len() ==> decl_ok(#[trigger] self.exits[i])
        &&& distinct(self.labels())
        &&& self.blocks.len() > 0 ==> self.blocks[0].name == "root"@
        &&& forall|k: int, n: int|
            0 <= k < self.blocks.len() && 0 <= n < self.blocks[k].instructions.len()
                ==> shape_fault(#[trigger] self.blocks[k].instructions[n]) is None
    }
}

/// Opening the block `root` keeps the invariant of a program.
pub proof fn lemma_opened_wf(p: ProgramView)
    requires
        p.wf(),
    ensures
        p.opened().wf(),
        p.opened().blocks.len() > 0,
{
}

/// A command that a program accepts keeps its invariant.
pub proof fn lemma_program_step_wf(p: ProgramView, line: nat, cmd: Seq<char>, args: Seq<Seq<char>>)
    requires
        p.wf(),
    ensures
        program_step(p, line, cmd, args) matches Ok(q) ==> q.wf(),
{
    if let Ok(q) = program_step(p, line, cmd, args) {
        lemma_opened_wf(p);
        let o = p.opened();
        if cmd == "reg_gateway"@ || cmd == "reg_exit"@ {
            let decl = StreamDeclView {
                name: args[0],
                alphabet: args[1],
                clock: args[2],
                size: args[3],
                line,
            };
            assert(decl_ok(decl));
            assert forall|i: int| 0 <= i < p.gateways.len() implies (#[trigger] p.gateways[i]).name
                != args[0] by {
                lemma_absent(decl_names(p.gateways), args[0], i);
            }
            assert forall|j: int| 0 <= j < p.exits.len() implies (#[trigger] p.exits[j]).name
                != args[0] by {
                lemma_absent(decl_names(p.exits), args[0], j);
            }
            if cmd == "reg_gateway"@ {
                lemma_distinct_push(decl_names(p.gateways), args[0]);
                assert(decl_names(q.gateways) =~= decl_names(p.gateways).push(args[0]));
            } else {
                lemma_distinct_push(decl_names(p.exits), args[0]);
                assert(decl_names(q.exits) =~= decl_names(p.exits).push(args[0]));
            }
        } else if cmd == "label"@ {
            lemma_distinct_push(p.labels(), args[0]);
            assert(q.labels() =~= p.labels().push(args[0]));
        } else {
            let i = if is_jump(cmd) {
                jump_of(cmd, args[0], args[1], args[2])->Ok_0
            } else {
                instruction_of2(cmd, args[0], args[1])->0
            };
            assert(q == o.with_instruction(i));
            assert(q.labels() =~= o.labels());
            assert forall|k: int, n: int|
                0 <= k < q.blocks.len() && 0 <= n < q.blocks[k].instructions.len()
                    implies shape_fault(#[trigger] q.blocks[k].instructions[n]) is None by {
                if k == q.blocks.len() - 1 {
                    if n < o.blocks[k].instructions.len() {
                        assert(q.blocks[k].instructions[n] == o.blocks[k].instructions[n]);
                    }
                } else {
                    assert(q.blocks[k] == o.blocks[k]);
                }
            }
        }
    }
}

impl ArgType {
    /// The text of the argument.
    pub fn text(&self) -> (t: &str)
        ensures
            t@ == arg_text(self@),
    {
        match self {
            ArgType::Name(s) => s.as_str(),
            ArgType::Label(s) => s.as_str(),
            ArgType::Gateway(s) => s.as_str(),
            ArgType::Exit(s) => s.as_str(),
            ArgType::Alphabet(s) => s.as_str(),
            ArgType::Clock(s) => s.as_str(),
            ArgType::Moment(s) => s.as_str(),
            ArgType::Character(s) => s.as_str(),
            ArgType::Number(s) => s.as_str(),
            ArgType::Program(s) => s.as_str(),
        }
    }

    /// The argument as it is shown in a message.
    pub fn shown(&self) -> (t: String)
        ensures
            t@ == arg_shown(self@),
    {
        let kind = match self {
            ArgType::Name(_) => "Name",
            ArgType::Label(_) => "Label",
            ArgType::Gateway(_) => "Gateway",
            ArgType::Exit(_) => "Exit",
            ArgType::Alphabet(_) => "Alphabet",
            ArgType::Clock(_) => "Clock",
            ArgType::Moment(_) => "Moment",
            ArgType::Character(_) => "Character",
            ArgType::Number(_) => "Number",
            ArgType::Program(_) => "Program",
        };
        let mut t = String::from_str(kind);
        t.append("(");
        t.append(debug_str(self.text()).as_str());
        t.append(")");
        t
    }
}

impl Instruction {
    /// The instruction as it is shown in a message.
    pub fn shown(&self) -> (t: String)
        ensures
            t@ == instruction_shown(self@),
    {
        let (name, a, b, third) = match self {
            Instruction::StartMoment(a, b) => ("StartMoment", a, b, None),
            Instruction::PushMoment(a, b) => ("PushMoment", a, b, None),
            Instruction::PushChar(a, b) => ("PushChar", a, b, None),
            Instruction::PushVal(a, b) => ("PushVal", a, b, None),
            Instruction::JumpEarlier(a, b, c) => ("JumpEarlier", a, b, Some(c)),
            Instruction::JumpLater(a, b, c) => ("JumpLater", a, b, Some(c)),
            Instruction::ForwardDuration(a, b) => ("ForwardDuration", a, b, None),
            Instruction::Connect(a, b) => ("Connect", a, b, None),
            Instruction::ExitGateway(a, b) => ("ExitGateway", a, b, None),
        };
        let mut arguments = a.shown();
        arguments.append(", ");
        arguments.append(b.shown().as_str());
        if let Some(c) = third {
            arguments.append(", ");
            arguments.append(c.shown().as_str());
        }
        let mut t = String::from_str(name);
        t.append("(");
        t.append(arguments.as_str());
        t.append(")");
        t
    }
}

/// The fault of an instruction that the emitter does not lower.
pub fn refuse_instruction(i: &Instruction) -> (f: Fault)
    ensures
        f@ == not_implemented(i@),
{
    let mut message = String::from_str("Not implemented: ");
    message.append(i.shown().as_str());
    Fault::new(ErrorKind::NotImplemented, message)
}

/// Tests that a name can be minted to go behind a prefix.
fn check_mint(name: &str, style: Style) -> (r: Result<(), Fault>)
    ensures
        match r {
            Ok(_) => mint_fault(name@, style) is None,
            Err(f) => mint_fault(name@, style) == Some(f@),
        },
{
    match mint(name, style) {
        Ok(_) => Ok(()),
        Err(f) => Err(f),
    }
}

/// Tests that a name can be minted to stand alone.
fn check_mint_bare(name: &str, style: Style) -> (r: Result<(), Fault>)
    ensures
        match r {
            Ok(_) => bare_mint_fault(name@, style) is None,
            Err(f) => bare_mint_fault(name@, style) == Some(f@),
        },
{
    match mint_bare(name, style) {
        Ok(_) => Ok(()),
        Err(f) => Err(f),
    }
}

/// Tests the declaration of a gateway or an exit.
fn check_decl(name: &str, alphabet: &str, clock: &str, size: &str) -> (r: Result<(), Fault>)
    ensures
        match r {
            Ok(_) => decl_fault(name@, alphabet@, clock@, size@) is None,
            Err(f) => decl_fault(name@, alphabet@, clock@, size@) == Some(f@),
        },
{
    check_mint(name, Style::Snake)?;
    check_mint(alphabet, Style::Pascal)?;
    check_mint(clock, Style::Pascal)?;
    let literal = parse_literal(size)?;
    if literal.value() == 0 {
        return Err(Fault::about(ErrorKind::MalformedLiteral, "buffer size is not positive: ", size));
    }
    Ok(())
}

/// Tests an instruction for what can be told without its program.
fn check_shape(i: &Instruction) -> (r: Result<(), Fault>)
    ensures
        match r {
            Ok(_) => shape_fault(i@) is None,
            Err(f) => shape_fault(i@) == Some(f@),
        },
{
    match i {
        Instruction::StartMoment(ArgType::Moment(m), ArgType::Exit(e)) => {
            check_literal(m.as_str())?;
            check_mint(e.as_str(), Style::Snake)
        },
        Instruction::PushMoment(ArgType::Moment(m), ArgType::Exit(e)) => {
            check_literal(m.as_str())?;
            check_mint(e.as_str(), Style::Snake)
        },
        Instruction::PushChar(ArgType::Character(c), ArgType::Exit(e)) => {
            check_mint_bare(c.as_str(), Style::Pascal)?;
            check_mint(e.as_str(), Style::Snake)
        },
        Instruction::PushVal(ArgType::Number(v), ArgType::Exit(e)) => {
            check_literal(v.as_str())?;
            check_mint(e.as_str(), Style::Snake)
        },
        Instruction::ForwardDuration(ArgType::Gateway(g), ArgType::Exit(e)) => {
            check_mint(g.as_str(), Style::Snake)?;
            check_mint(e.as_str(), Style::Snake)
        },
        Instruction::JumpEarlier(ArgType::Label(l), ArgType::Gateway(a), ArgType::Gateway(b)) => {
            check_mint(l.as_str(), Style::Snake)?;
            check_mint(a.as_str(), Style::Snake)?;
            check_mint(b.as_str(), Style::Snake)
        },
        Instruction::JumpLater(ArgType::Label(l), ArgType::Gateway(a), ArgType::Gateway(b)) => {
            check_mint(l.as_str(), Style::Snake)?;
            check_mint(a.as_str(), Style::Snake)?;
            check_mint(b.as_str(), Style::Snake)
        },
        Instruction::Connect(ArgType::Program(_), ArgType::Name(_)) => Ok(()),
        Instruction::ExitGateway(ArgType::Exit(_), ArgType::Gateway(_)) => Ok(()),
        _ => Err(refuse_instruction(i)),
    }
}

/// Reads an argument of the form `Time(GATEWAY)`.
pub fn time_gateway(arg: &str) -> (r: Option<String>)
    ensures
        match r {
            Some(g) => time_ref(arg@) == Some(g@),
            None => time_ref(arg@) is None,
        },
{
    let chars = chars_of(arg);
    let n = chars.len();
    if n >= 6 && chars[0] == 'T' && chars[1] == 'i' && chars[2] == 'm' && chars[3] == 'e'
        && chars[4] == '(' && chars[n - 1] == ')' {
        assert(arg@.subrange(0, 5) =~= seq!['T', 'i', 'm', 'e', '(']);
        Some(arg.substring_char(5, n - 1).to_owned())
    } else {
        proof {
            if n >= 6 && arg@.subrange(0, 5) == seq!['T', 'i', 'm', 'e', '('] {
                let head = arg@.subrange(0, 5);
                assert(head[0] == 'T' && head[1] == 'i' && head[2] == 'm' && head[3] == 'e'
                    && head[4] == '(');
            }
        }
        None
    }
}

/// Whether a command of two arguments is an instruction.
fn is_instruction(cmd: &str) -> (known: bool)
    ensures
        forall|a: Seq<char>, b: Seq<char>|
            known == (#[trigger] instruction_of2(cmd@, a, b) is Some),
{
    str_equal(cmd, "start_moment") || str_equal(cmd, "push_moment") || str_equal(cmd, "push_char")
        || str_equal(cmd, "push_val") || str_equal(cmd, "forward_duration") || str_equal(
        cmd,
        "connect",
    ) || str_equal(cmd, "reg_exit_gateway")
}

/// The instruction that a command of two arguments stands for.
fn make_instruction(cmd: &str, a: &str, b: &str) -> (i: Instruction)
    requires
        instruction_of2(cmd@, a@, b@) is Some,
    ensures
        instruction_of2(cmd@, a@, b@) == Some(i@),
{
    if str_equal(cmd, "start_moment") {
        Instruction::StartMoment(ArgType::Moment(a.to_owned()), ArgType::Exit(b.to_owned()))
    } else if str_equal(cmd, "push_moment") {
        Instruction::PushMoment(ArgType::Moment(a.to_owned()), ArgType::Exit(b.to_owned()))
    } else if str_equal(cmd, "push_char") {
        Instruction::PushChar(ArgType::Character(a.to_owned()), ArgType::Exit(b.to_owned()))
    } else if str_equal(cmd, "push_val") {
        Instruction::PushVal(ArgType::Number(a.to_owned()), ArgType::Exit(b.to_owned()))
    } else if str_equal(cmd, "forward_duration") {
        Instruction::ForwardDuration(ArgType::Gateway(a.to_owned()), ArgType::Exit(b.to_owned()))
    } else if str_equal(cmd, "connect") {
        Instruction::Connect(ArgType::Program(a.to_owned()), ArgType::Name(b.to_owned()))
    } else {
        Instruction::ExitGateway(ArgType::Exit(a.to_owned()), ArgType::Gateway(b.to_owned()))
    }
}

/// The jump that a command stands for.
fn make_jump(cmd: &str, label: &str, a: &str, b: &str) -> (r: Result<Instruction, Fault>)
    ensures
        match r {
            Ok(i) => jump_of(cmd@, label@, a@, b@) == Ok::<InstructionView, FaultView>(i@),
            Err(f) => jump_of(cmd@, label@, a@, b@) == Err::<InstructionView, FaultView>(f@),
        },
{
    let ga = match time_gateway(a) {
        Some(g) => g,
        None => {
            return Err(
                Fault::about(ErrorKind::MalformedArgs, "not of the form Time(GATEWAY): ", a),
            );
        },
    };
    let gb = match time_gateway(b) {
        Some(g) => g,
        None => {
            return Err(
                Fault::about(ErrorKind::MalformedArgs, "not of the form Time(GATEWAY): ", b),
            );
        },
    };
    if str_equal(cmd, "jlt") {
        Ok(
            Instruction::JumpEarlier(
                ArgType::Label(label.to_owned()),
                ArgType::Gateway(ga),
                ArgType::Gateway(gb),
            ),
        )
    } else {
        Ok(
            Instruction::JumpLater(
                ArgType::Label(label.to_owned()),
                ArgType::Gateway(ga),
                ArgType::Gateway(gb),
            ),
        )
    }
}

/// The place of the first declaration with this name.
fn find_decl(decls: &Vec<StreamDecl>, name: &str) -> (found: Option<usize>)
    ensures
        match found {
            Some(i) => first_position(
                decl_names(decls@.map_values(|d: StreamDecl| d@)),
                name@,
            ) == Some(i as int) && i < decls.len(),
            None => first_position(decl_names(decls@.map_values(|d: StreamDecl| d@)), name@)
                is None,
        },
{
    let ghost names = decl_names(decls@.map_values(|d: StreamDecl| d@));
    let mut i: usize = 0;
    while i < decls.len()
        invariant
            i <= decls.len(),
            names == decl_names(decls@.map_values(|d: StreamDecl| d@)),
            forall|j: int| 0 <= j < i ==> names[j] != name@,
        decreases decls.len() - i,
    {
        assert(names[i as int] == decls[i as int].name@);
        if str_equal(decls[i].name.as_str(), name) {
            proof {
                lemma_first_position(names, name@, i as int);
            }
            return Some(i);
        }
        i += 1;
    }
    proof {
        lemma_no_position(names, name@);
    }
    None
}

impl Program {
    /// A program without streams and without blocks.
    pub fn new(name: String) -> (program: Self)
        ensures
            program@ == (ProgramView {
                name: name@,
                blocks: Seq::<BlockView>::empty(),
                gateways: Seq::<StreamDeclView>::empty(),
                exits: Seq::<StreamDeclView>::empty(),
            }),
            program@.wf(),
    {
        let program = Program {
            name,
            instructions: Vec::new(),
            gateways: Vec::new(),
            exits: Vec::new(),
        };
        assert(program@.blocks =~= Seq::<BlockView>::empty());
        assert(program@.gateways =~= Seq::<StreamDeclView>::empty());
        assert(program@.exits =~= Seq::<StreamDeclView>::empty());
        program
    }

    /// The name of the program, as the source wrote it.
    pub fn name(&self) -> (name: &str)
        ensures
            name@ == self@.name,
    {
        self.name.as_str()
    }

    /// The fault of a command that the program refuses.
    fn refuse(&self, kind: ErrorKind, cmd: &str, args: &[&str]) -> (f: Fault)
        ensures
            f@ == refused(kind, "Program"@, self@.name, cmd@, str_views(args@)),
    {
        Fault::refused(kind, "Program", self.name.as_str(), cmd, args)
    }

    /// The place of the first block with this name.
    fn find_label(&self, name: &str) -> (found: Option<usize>)
        ensures
            match found {
                Some(i) => first_position(self@.labels(), name@) == Some(i as int) && i
                    < self@.blocks.len(),
                None => first_position(self@.labels(), name@) is None,
            },
    {
        let mut i: usize = 0;
        while i < self.instructions.len()
            invariant
                i <= self.instructions.len(),
                self@.labels().len() == self.instructions.len(),
                forall|j: int| 0 <= j < i ==> self@.labels()[j] != name@,
            decreases self.instructions.len() - i,
        {
            assert(self@.labels()[i as int] == self.instructions[i as int].name@);
            if str_equal(self.instructions[i].name.as_str(), name) {
                proof {
                    lemma_first_position(self@.labels(), name@, i as int);
                }
                return Some(i);
            }
            i += 1;
        }
        proof {
            lemma_no_position(self@.labels(), name@);
        }
        None
    }

    /// Opens the block `root`, if no block is open yet.
    fn open_root(&mut self)
        ensures
            final(self)@ == old(self)@.opened(),
            final(self)@.blocks.len() > 0,
    {
        if self.instructions.len() == 0 {
            let block = Block { name: String::from_str("root"), instructions: Vec::new() };
            assert(block@.instructions =~= Seq::<InstructionView>::empty());
            self.instructions.push(block);
            assert(self@.blocks =~= seq![block@]);
        }
    }

    /// Puts an instruction at the end of the current block.
    fn append(&mut self, i: Instruction) -> (r: Result<(), Fault>)
        ensures
            match r {
                Ok(_) => append_checked(old(self)@, i@) == Ok::<ProgramView, FaultView>(
                    final(self)@,
                ),
                Err(f) => append_checked(old(self)@, i@) == Err::<ProgramView, FaultView>(f@)
                    && final(self)@ == old(self)@,
            },
    {
        check_shape(&i)?;
        self.open_root();
        let ghost opened = self@;
        let mut block = self.instructions.pop().unwrap();
        let ghost last = block@;
        assert(last == opened.blocks.last());
        assert(self@.blocks =~= opened.blocks.drop_last());
        let ghost before = block.instructions@;
        block.instructions.push(i);
        assert(instruction_views(block.instructions@) =~= instruction_views(before).push(i@));
        self.instructions.push(block);
        assert(self@.blocks =~= opened.blocks.drop_last().push(block@));
        Ok(())
    }

    /// Declares a gateway or an exit.
    fn register(&mut self, gateway: bool, lineno: usize, args: &[&str]) -> (r: Result<(), Fault>)
        requires
            args@.len() == 4,
        ensures
            match r {
                Ok(_) => register(old(self)@, gateway, lineno as nat, str_views(args@)) == Ok::<
                    ProgramView,
                    FaultView,
                >(final(self)@),
                Err(f) => register(old(self)@, gateway, lineno as nat, str_views(args@)) == Err::<
                    ProgramView,
                    FaultView,
                >(f@) && final(self)@ == old(self)@,
            },
    {
        check_decl(args[0], args[1], args[2], args[3])?;
        if let Some(i) = find_decl(&self.gateways, args[0]) {
            assert(self@.gateways[i as int] == self.gateways[i as int]@);
            return Err(duplicate(args[0], self.gateways[i].line));
        }
        if let Some(i) = find_decl(&self.exits, args[0]) {
            assert(self@.exits[i as int] == self.exits[i as int]@);
            return Err(duplicate(args[0], self.exits[i].line));
        }
        let decl = StreamDecl {
            name: args[0].to_owned(),
            alphabet: args[1].to_owned(),
            clock: args[2].to_owned(),
            size: args[3].to_owned(),
            line: lineno,
        };
        self.open_root();
        if gateway {
            let ghost before = self.gateways@;
            self.gateways.push(decl);
            assert(self.gateways@.map_values(|d: StreamDecl| d@) =~= before.map_values(
                |d: StreamDecl| d@,
            ).push(decl@));
        } else {
            let ghost before = self.exits@;
            self.exits.push(decl);
            assert(self.exits@.map_values(|d: StreamDecl| d@) =~= before.map_values(
                |d: StreamDecl| d@,
            ).push(decl@));
        }
        Ok(())
    }

    /// What `process_command` does, with the fault not yet tied to a place.
    fn step(&mut self, lineno: usize, cmd: &str, args: &[&str]) -> (r: Result<(), Fault>)
        ensures
            match r {
                Ok(_) => program_step(old(self)@, lineno as nat, cmd@, str_views(args@)) == Ok::<
                    ProgramView,
                    FaultView,
                >(final(self)@),
                Err(f) => program_step(old(self)@, lineno as nat, cmd@, str_views(args@)) == Err::<
                    ProgramView,
                    FaultView,
                >(f@) && final(self)@ == old(self)@,
            },
    {
        let gateway = str_equal(cmd, "reg_gateway");
        if gateway || str_equal(cmd, "reg_exit") {
            if args.len() != 4 {
                return Err(self.refuse(ErrorKind::MalformedArgs, cmd, args));
            }
            self.register(gateway, lineno, args)
        } else if str_equal(cmd, "label") {
            if args.len() != 1 {
                return Err(self.refuse(ErrorKind::MalformedArgs, cmd, args));
            }
            if self.instructions.len() == 0 {
                return Err(self.refuse(ErrorKind::UnknownCommand, cmd, args));
            }
            check_mint(args[0], Style::Snake)?;
            if self.find_label(args[0]).is_some() {
                return Err(
                    Fault::about(ErrorKind::DuplicateName, "label is already defined: ", args[0]),
                );
            }
            let block = Block { name: args[0].to_owned(), instructions: Vec::new() };
            assert(block@.instructions =~= Seq::<InstructionView>::empty());
            let ghost before = self.instructions@;
            self.instructions.push(block);
            assert(self.instructions@.map_values(|b: Block| b@) =~= before.map_values(
                |b: Block| b@,
            ).push(block@));
            Ok(())
        } else if str_equal(cmd, "jlt") || str_equal(cmd, "jgt") {
            if args.len() != 3 {
                return Err(self.refuse(ErrorKind::MalformedArgs, cmd, args));
            }
            let jump = make_jump(cmd, args[0], args[1], args[2])?;
            self.append(jump)
        } else {
            if !is_instruction(cmd) {
                assert(instruction_of2(cmd@, str_views(args@)[0], str_views(args@)[1]) is None);
                return Err(self.refuse(ErrorKind::UnknownCommand, cmd, args));
            }
            assert(instruction_of2(cmd@, str_views(args@)[0], str_views(args@)[1]) is Some);
            if args.len() != 2 {
                return Err(self.refuse(ErrorKind::MalformedArgs, cmd, args));
            }
            let instruction = make_instruction(cmd, args[0], args[1]);
            self.append(instruction)
        }
    }

    /// Applies one command of the source to the program: a declaration of a
    /// stream, a label or an instruction. A refused command leaves the
    /// program as it was.
    pub fn process_command(&mut self, filename: &str, lineno: usize, cmd: &str, args: &[&str]) -> (r:
        Result<(), CompileError>)
        ensures
            match r {
                Ok(_) => program_step(old(self)@, lineno as nat, cmd@, str_views(args@)) == Ok::<
                    ProgramView,
                    FaultView,
                >(final(self)@),
                Err(e) => final(self)@ == old(self)@ && (program_step(
                    old(self)@,
                    lineno as nat,
                    cmd@,
                    str_views(args@),
                ) matches Err(f) && e@ == f.at(filename@, lineno as nat)),
            },
            old(self)@.wf() ==> final(self)@.wf(),
    {
        proof {
            if old(self)@.wf() {
                lemma_program_step_wf(old(self)@, lineno as nat, cmd@, str_views(args@));
            }
        }
        match self.step(lineno, cmd, args) {
            Ok(()) => Ok(()),
            Err(f) => Err(f.at(filename, lineno)),
        }
    }
}

/// The fault of a stream name that was declared before.
fn duplicate(name: &str, line: usize) -> (f: Fault)
    ensures
        f@ == duplicate_stream(name@, line as nat),
{
    let mut message = String::from_str("stream ");
    message.append(name);
    message.append(" is already registered at line ");
    message.append(decimal(line).as_str());
    Fault::new(ErrorKind::DuplicateName, message)
}

} // verus!
