//! The program emitter: from a program to the record, the constructor and
//! the methods that stand for it in the artifact.

use crate::error::{or_fault, ErrorKind, Fault, FaultView};
use crate::ident::{cased, mint, mint_bare, mint_fault, Style};
use crate::literal::check_literal;
use crate::parser::state::program::{
    check_decl, check_mint, decl_fault, decl_names, find_decl, instruction_views, not_implemented,
    refuse_instruction,
    shape_fault, ArgType, ArgView, Instruction, InstructionView, Program, ProgramView, StreamDecl,
    StreamDeclView,
};
use crate::text::{first_position, lemma_first_position, lemma_no_position, str_equal, views};
use vstd::prelude::*;
use vstd::string::*;

verus! {

/// The fault of a name that an instruction refers to and the program does
/// not declare; `what` says what kind of thing the name should be.
pub open spec fn unknown_reference(what: Seq<char>, name: Seq<char>, program: Seq<char>) -> FaultView {
    FaultView {
        kind: ErrorKind::UnknownReference,
        message: "Could not find "@ + what + " ("@ + name + ") for Program ("@ + program + ")"@,
    }
}

/// The fault of a jump to a block that does not come later than the jump.
pub open spec fn backward_jump(label: Seq<char>, program: Seq<char>) -> FaultView {
    FaultView {
        kind: ErrorKind::UnknownReference,
        message: "Label ("@ + label + ") is not a later block of Program ("@ + program + ")"@,
    }
}

/// The type of a stream in the emitted code.
pub open spec fn stream_type(alphabet: Seq<char>, clock: Seq<char>, size: Seq<char>) -> Seq<char> {
    "Stream<Alphabet"@ + cased(alphabet, Style::Pascal) + ", Clock"@ + cased(clock, Style::Pascal)
        + ", "@ + size + ">"@
}

/// The field of a stream in the record of the emitted program; `prefix` is
/// `gateway_` or `exit_`.
pub open spec fn field_text(
    prefix: Seq<char>,
    name: Seq<char>,
    alphabet: Seq<char>,
    clock: Seq<char>,
    size: Seq<char>,
) -> Seq<char> {
    "    pub "@ + prefix + cased(name, Style::Snake) + ": "@ + stream_type(alphabet, clock, size)
        + ",\n"@
}

/// The line of the emitted constructor that makes a stream, empty.
pub open spec fn init_text(prefix: Seq<char>, d: StreamDeclView) -> Seq<char> {
    "            "@ + prefix + cased(d.name, Style::Snake) + ": <"@ + stream_type(
        d.alphabet,
        d.clock,
        d.size,
    ) + ">::new(),\n"@
}

/// The place of an exit in the emitted record.
pub open spec fn exit_place(e: Seq<char>) -> Seq<char> {
    "        self.exit_"@ + cased(e, Style::Snake)
}

/// The lowered form of `start_moment`.
pub open spec fn start_moment_text(m: Seq<char>, e: Seq<char>) -> Seq<char> {
    exit_place(e) + ".set_initial_moment("@ + m + ");\n"@
}

/// The lowered form of `push_moment`.
pub open spec fn push_moment_text(m: Seq<char>, e: Seq<char>) -> Seq<char> {
    exit_place(e) + ".push_moment("@ + m + ").expect(\"Could not push_moment to Exit ("@ + e
        + ")\");\n"@
}

/// The lowered form of `push_val`; `alphabet` is the alphabet of the exit.
pub open spec fn push_val_text(v: Seq<char>, e: Seq<char>, alphabet: Seq<char>) -> Seq<char> {
    exit_place(e) + ".push(Alphabet"@ + cased(alphabet, Style::Pascal) + "::to_char("@ + v
        + ").expect(\"No character found in Alphabet ("@ + alphabet + "): \\\""@ + v
        + "\\\"\")).expect(\"Could not push_val to Exit ("@ + e + ")\");\n"@
}

/// The lowered form of `push_char`; `alphabet` is the alphabet of the exit.
pub open spec fn push_char_text(c: Seq<char>, e: Seq<char>, alphabet: Seq<char>) -> Seq<char> {
    exit_place(e) + ".push(<Alphabet"@ + cased(alphabet, Style::Pascal)
        + " as AlphabetLike>::CharEnum::"@ + cased(c, Style::Pascal)
        + "()).expect(\"Could not push_char (\\\""@ + c + "\\\")\");\n"@
}

/// The lowered form of `forward_duration`: a loop that pops the gateway,
/// pushes each character to the exit, passes over empty cells, and ends
/// when it has pushed the next moment.
pub open spec fn forward_duration_text(g: Seq<char>, e: Seq<char>) -> Seq<char> {
    "        loop {\n            match self.gateway_"@ + cased(g, Style::Snake)
        + ".pop() {\n                StreamItem::Character(chr) => {\n                    self.exit_"@
        + cased(e, Style::Snake) + ".push(chr).expect(\"Failed to forward character from Gateway "@
        + g + " to Exit "@ + e
        + "\");\n                }\n                StreamItem::Moment(moment) => {\n                    self.exit_"@
        + cased(e, Style::Snake)
        + ".push_moment(moment).expect(\"Failed to forward moment from Gateway "@ + g
        + " to Exit "@ + e
        + "\");\n                    break;\n                }\n                StreamItem::Empty => continue,\n            }\n        }\n"@
}

/// The guard of a jump: the clocks of the two gateways must mean the same.
pub open spec fn guard_text(a: Seq<char>, b: Seq<char>, clock_a: Seq<char>, clock_b: Seq<char>) -> Seq<
    char,
> {
    "        if Clock"@ + cased(clock_a, Style::Pascal) + "::represents() != Clock"@ + cased(
        clock_b,
        Style::Pascal,
    ) + "::represents() {\n            panic!(\"(Clock of) Gateway "@ + a
        + " and (Clock of) Gateway "@ + b
        + " being compared while not representing the same thing\");\n        }\n"@
}

/// The pattern of a jump for one gateway without a moment.
pub open spec fn lone_pattern(earlier: bool) -> Seq<char> {
    if earlier {
        "(None, Some(_))"@
    } else {
        "(Some(_), None)"@
    }
}

/// The comparison of a jump.
pub open spec fn comparison(earlier: bool) -> Seq<char> {
    if earlier {
        "a < b"@
    } else {
        "a > b"@
    }
}

/// The branch of a jump: a tail call of the label's method where gateway A
/// is earlier (or later) than gateway B.
pub open spec fn branch_text(earlier: bool, l: Seq<char>, a: Seq<char>, b: Seq<char>) -> Seq<char> {
    "        match (self.gateway_"@ + cased(a, Style::Snake) + ".current_moment(), self.gateway_"@
        + cased(b, Style::Snake) + ".current_moment()) {\n            "@ + lone_pattern(earlier)
        + " => {\n                return self.label_"@ + cased(l, Style::Snake)
        + "();\n            }\n            (Some(a), Some(b)) if "@ + comparison(earlier)
        + " => {\n                return self.label_"@ + cased(l, Style::Snake)
        + "();\n            }\n            _ => (),\n        }\n"@
}

impl ProgramView {
    /// Why an instruction cannot use an exit of this name, if it cannot:
    /// the program declares none, or the alphabet of the exit cannot be
    /// minted.
    pub open spec fn exit_fault(self, e: Seq<char>) -> Option<FaultView> {
        match first_position(decl_names(self.exits), e) {
            Some(i) => mint_fault(self.exits[i].alphabet, Style::Pascal),
            None => Some(unknown_reference("Exit"@, e, self.name)),
        }
    }

    /// Why an instruction cannot use a gateway of this name, if it cannot:
    /// the program declares none, or the clock of the gateway cannot be
    /// minted.
    pub open spec fn gateway_fault(self, g: Seq<char>) -> Option<FaultView> {
        match first_position(decl_names(self.gateways), g) {
            Some(i) => mint_fault(self.gateways[i].clock, Style::Pascal),
            None => Some(unknown_reference("Gateway"@, g, self.name)),
        }
    }

    /// Why an instruction cannot jump to a block of this name, if it
    /// cannot: the program has none.
    pub open spec fn label_fault(self, l: Seq<char>) -> Option<FaultView> {
        match first_position(self.labels(), l) {
            Some(i) => None,
            None => Some(unknown_reference("Label"@, l, self.name)),
        }
    }

    /// The alphabet that an exit of the program is declared with.
    pub open spec fn alphabet_of(self, e: Seq<char>) -> Seq<char> {
        self.exits[first_position(decl_names(self.exits), e)->0].alphabet
    }

    /// The clock that a gateway of the program is declared with.
    pub open spec fn clock_of(self, g: Seq<char>) -> Seq<char> {
        self.gateways[first_position(decl_names(self.gateways), g)->0].clock
    }

    /// Why an instruction of good shape cannot be lowered in this program,
    /// if it cannot: it names an exit, a gateway or a label that the program
    /// does not declare, or it is one that the emitter does not lower.
    pub open spec fn context_fault(self, i: InstructionView) -> Option<FaultView> {
        match i {
            InstructionView::StartMoment(_, ArgView::Exit(e)) => self.exit_fault(e),
            InstructionView::PushMoment(_, ArgView::Exit(e)) => self.exit_fault(e),
            InstructionView::PushChar(_, ArgView::Exit(e)) => self.exit_fault(e),
            InstructionView::PushVal(_, ArgView::Exit(e)) => self.exit_fault(e),
            InstructionView::ForwardDuration(ArgView::Gateway(g), ArgView::Exit(e)) => or_fault(
                self.gateway_fault(g),
                self.exit_fault(e),
            ),
            InstructionView::JumpEarlier(
                ArgView::Label(l),
                ArgView::Gateway(a),
                ArgView::Gateway(b),
            ) => or_fault(self.label_fault(l), or_fault(self.gateway_fault(a), self.gateway_fault(b))),
            InstructionView::JumpLater(
                ArgView::Label(l),
                ArgView::Gateway(a),
                ArgView::Gateway(b),
            ) => or_fault(self.label_fault(l), or_fault(self.gateway_fault(a), self.gateway_fault(b))),
            _ => Some(not_implemented(i)),
        }
    }

    /// Why an instruction cannot be lowered in this program, if it cannot.
    #[verifier::opaque]
    pub open spec fn instruction_fault(self, i: InstructionView) -> Option<FaultView> {
        or_fault(shape_fault(i), self.context_fault(i))
    }

    /// The lowered form of an instruction: the statements that stand for it
    /// in the method of its block.
    #[verifier::opaque]
    pub open spec fn instruction_text(self, i: InstructionView) -> Seq<char> {
        match i {
            InstructionView::StartMoment(ArgView::Moment(m), ArgView::Exit(e)) => start_moment_text(
                m,
                e,
            ),
            InstructionView::PushMoment(ArgView::Moment(m), ArgView::Exit(e)) => push_moment_text(
                m,
                e,
            ),
            InstructionView::PushChar(ArgView::Character(c), ArgView::Exit(e)) => push_char_text(
                c,
                e,
                self.alphabet_of(e),
            ),
            InstructionView::PushVal(ArgView::Number(v), ArgView::Exit(e)) => push_val_text(
                v,
                e,
                self.alphabet_of(e),
            ),
            InstructionView::ForwardDuration(
                ArgView::Gateway(g),
                ArgView::Exit(e),
            ) => forward_duration_text(g, e),
            InstructionView::JumpEarlier(
                ArgView::Label(l),
                ArgView::Gateway(a),
                ArgView::Gateway(b),
            ) => guard_text(a, b, self.clock_of(a), self.clock_of(b)) + branch_text(true, l, a, b),
            InstructionView::JumpLater(
                ArgView::Label(l),
                ArgView::Gateway(a),
                ArgView::Gateway(b),
            ) => guard_text(a, b, self.clock_of(a), self.clock_of(b)) + branch_text(false, l, a, b),
            _ => Seq::<char>::empty(),
        }
    }
}

/// The first fault among the first `n` declarations.
pub open spec fn decls_fault(decls: Seq<StreamDeclView>, n: nat) -> Option<FaultView>
    decreases n,
{
    if n == 0 {
        None
    } else {
        or_fault(
            decls_fault(decls, (n - 1) as nat),
            decl_fault(
                decls[n - 1].name,
                decls[n - 1].alphabet,
                decls[n - 1].clock,
                decls[n - 1].size,
            ),
        )
    }
}

/// The fields of the first `n` declarations.
pub open spec fn fields_text(prefix: Seq<char>, decls: Seq<StreamDeclView>, n: nat) -> Seq<char>
    decreases n,
{
    if n == 0 {
        Seq::<char>::empty()
    } else {
        fields_text(prefix, decls, (n - 1) as nat) + field_text(
            prefix,
            decls[n - 1].name,
            decls[n - 1].alphabet,
            decls[n - 1].clock,
            decls[n - 1].size,
        )
    }
}

/// The lines of the emitted constructor for the first `n` declarations.
pub open spec fn inits_text(prefix: Seq<char>, decls: Seq<StreamDeclView>, n: nat) -> Seq<char>
    decreases n,
{
    if n == 0 {
        Seq::<char>::empty()
    } else {
        inits_text(prefix, decls, (n - 1) as nat) + init_text(prefix, decls[n - 1])
    }
}

/// The label that an instruction jumps to, if it is a jump.
pub open spec fn jump_target(i: InstructionView) -> Option<Seq<char>> {
    match i {
        InstructionView::JumpEarlier(ArgView::Label(l), _, _) => Some(l),
        InstructionView::JumpLater(ArgView::Label(l), _, _) => Some(l),
        _ => None,
    }
}

impl ProgramView {
    /// The first fault among the first `n` of some instructions.
    pub open spec fn body_fault(self, instructions: Seq<InstructionView>, n: nat) -> Option<
        FaultView,
    >
        decreases n,
    {
        if n == 0 {
            None
        } else {
            or_fault(
                self.body_fault(instructions, (n - 1) as nat),
                self.instruction_fault(instructions[n - 1]),
            )
        }
    }

    /// The lowered forms of the first `n` of some instructions.
    pub open spec fn body_text(self, instructions: Seq<InstructionView>, n: nat) -> Seq<char>
        decreases n,
    {
        if n == 0 {
            Seq::<char>::empty()
        } else {
            self.body_text(instructions, (n - 1) as nat) + self.instruction_text(
                instructions[n - 1],
            )
        }
    }

    /// Why a block cannot be lowered to a method, if it cannot: its name
    /// cannot be minted, or one of its instructions cannot be lowered.
    pub open spec fn func_fault(self, name: Seq<char>, instructions: Seq<InstructionView>) -> Option<
        FaultView,
    > {
        or_fault(
            mint_fault(name, Style::Snake),
            self.body_fault(instructions, instructions.len()),
        )
    }

    /// The method that a block is lowered to.
    pub open spec fn func_text(self, name: Seq<char>, instructions: Seq<InstructionView>) -> Seq<
        char,
    > {
        "    pub fn label_"@ + cased(name, Style::Snake) + "(&mut self) {\n"@ + self.body_text(
            instructions,
            instructions.len(),
        ) + "    }\n"@
    }

    /// Why an instruction may not stand in block `k`, if it may not: it
    /// jumps to a block that is not later than `k`.
    pub open spec fn direction_fault(self, k: nat, i: InstructionView) -> Option<FaultView> {
        match jump_target(i) {
            Some(l) => match first_position(self.labels(), l) {
                Some(t) => if t <= k {
                    Some(backward_jump(l, self.name))
                } else {
                    None
                },
                None => None,
            },
            None => None,
        }
    }

    /// The first jump among the first `n` instructions of block `k` that
    /// does not go forward.
    pub open spec fn directions_fault(self, k: nat, n: nat) -> Option<FaultView>
        decreases n,
    {
        if n == 0 {
            None
        } else {
            or_fault(
                self.directions_fault(k, (n - 1) as nat),
                self.direction_fault(k, self.blocks[k as int].instructions[n - 1]),
            )
        }
    }

    /// Why block `k` cannot be emitted, if it cannot.
    pub open spec fn block_fault(self, k: nat) -> Option<FaultView> {
        or_fault(
            self.func_fault(self.blocks[k as int].name, self.blocks[k as int].instructions),
            self.directions_fault(k, self.blocks[k as int].instructions.len()),
        )
    }

    /// The first fault among the first `n` blocks.
    pub open spec fn blocks_fault(self, n: nat) -> Option<FaultView>
        decreases n,
    {
        if n == 0 {
            None
        } else {
            or_fault(self.blocks_fault((n - 1) as nat), self.block_fault((n - 1) as nat))
        }
    }

    /// The methods of the first `n` blocks.
    pub open spec fn funcs_text(self, n: nat) -> Seq<char>
        decreases n,
    {
        if n == 0 {
            Seq::<char>::empty()
        } else {
            self.funcs_text((n - 1) as nat) + self.func_text(
                self.blocks[n - 1].name,
                self.blocks[n - 1].instructions,
            )
        }
    }

    /// Why the program cannot be rendered, if it cannot: a name cannot be
    /// minted, a declaration or an instruction is refused, an instruction
    /// names what the program does not declare, or a jump does not go
    /// forward.
    pub open spec fn fault(self) -> Option<FaultView> {
        or_fault(
            mint_fault(self.name, Style::Pascal),
            or_fault(
                decls_fault(self.gateways, self.gateways.len()),
                or_fault(
                    decls_fault(self.exits, self.exits.len()),
                    self.blocks_fault(self.blocks.len()),
                ),
            ),
        )
    }

    /// The record of the emitted program: one field for each gateway and
    /// each exit.
    pub open spec fn record_text(self) -> Seq<char> {
        "pub struct Program"@ + cased(self.name, Style::Pascal) + " {\n"@ + fields_text(
            "gateway_"@,
            self.gateways,
            self.gateways.len(),
        ) + fields_text("exit_"@, self.exits, self.exits.len()) + "}\n"@
    }

    /// The constructor of the emitted program: every stream empty.
    pub open spec fn constructor_text(self) -> Seq<char> {
        "    pub const fn new() -> Self {\n        Self {\n"@ + inits_text(
            "gateway_"@,
            self.gateways,
            self.gateways.len(),
        ) + inits_text("exit_"@, self.exits, self.exits.len()) + "        }\n    }\n"@
    }

    /// The emitted code of the program: its record, its constructor and one
    /// method for each block.
    pub open spec fn text(self) -> Seq<char> {
        self.record_text() + "impl Program"@ + cased(self.name, Style::Pascal) + " {\n"@
            + self.constructor_text() + self.funcs_text(self.blocks.len()) + "}\n"@
    }

    /// Why the program cannot stand beside the given alphabets and clocks,
    /// if it cannot: the first `n` of the given declarations name an
    /// alphabet or a clock that is not among them.
    pub open spec fn references_fault(
        self,
        decls: Seq<StreamDeclView>,
        n: nat,
        alphabets: Seq<Seq<char>>,
        clocks: Seq<Seq<char>>,
    ) -> Option<FaultView>
        decreases n,
    {
        if n == 0 {
            None
        } else {
            or_fault(
                self.references_fault(decls, (n - 1) as nat, alphabets, clocks),
                if first_position(alphabets, decls[n - 1].alphabet) is None {
                    Some(unknown_reference("Alphabet"@, decls[n - 1].alphabet, self.name))
                } else if first_position(clocks, decls[n - 1].clock) is None {
                    Some(unknown_reference("Clock"@, decls[n - 1].clock, self.name))
                } else {
                    None
                },
            )
        }
    }

    /// Why the program cannot stand beside the given alphabets and clocks,
    /// if it cannot: a gateway or an exit names one that is not among them.
    pub open spec fn unresolved(self, alphabets: Seq<Seq<char>>, clocks: Seq<Seq<char>>) -> Option<
        FaultView,
    > {
        or_fault(
            self.references_fault(self.gateways, self.gateways.len(), alphabets, clocks),
            self.references_fault(self.exits, self.exits.len(), alphabets, clocks),
        )
    }
}

/// A fault among the first items of a list stays the fault of the whole
/// list, for each of the lists that the emitter walks.
pub proof fn lemma_decls_fault_stays(decls: Seq<StreamDeclView>, n: nat, m: nat)
    requires
        n <= m,
        decls_fault(decls, n) is Some,
    ensures
        decls_fault(decls, m) == decls_fault(decls, n),
    decreases m,
{
    if n < m {
        lemma_decls_fault_stays(decls, n, (m - 1) as nat);
    }
}

pub proof fn lemma_body_fault_stays(
    p: ProgramView,
    instructions: Seq<InstructionView>,
    n: nat,
    m: nat,
)
    requires
        n <= m,
        p.body_fault(instructions, n) is Some,
    ensures
        p.body_fault(instructions, m) == p.body_fault(instructions, n),
    decreases m,
{
    if n < m {
        lemma_body_fault_stays(p, instructions, n, (m - 1) as nat);
    }
}

pub proof fn lemma_directions_fault_stays(p: ProgramView, k: nat, n: nat, m: nat)
    requires
        n <= m,
        p.directions_fault(k, n) is Some,
    ensures
        p.directions_fault(k, m) == p.directions_fault(k, n),
    decreases m,
{
    if n < m {
        lemma_directions_fault_stays(p, k, n, (m - 1) as nat);
    }
}

pub proof fn lemma_blocks_fault_stays(p: ProgramView, n: nat, m: nat)
    requires
        n <= m,
        p.blocks_fault(n) is Some,
    ensures
        p.blocks_fault(m) == p.blocks_fault(n),
    decreases m,
{
    if n < m {
        lemma_blocks_fault_stays(p, n, (m - 1) as nat);
    }
}

pub proof fn lemma_references_fault_stays(
    p: ProgramView,
    decls: Seq<StreamDeclView>,
    n: nat,
    m: nat,
    alphabets: Seq<Seq<char>>,
    clocks: Seq<Seq<char>>,
)
    requires
        n <= m,
        p.references_fault(decls, n, alphabets, clocks) is Some,
    ensures
        p.references_fault(decls, m, alphabets, clocks) == p.references_fault(
            decls,
            n,
            alphabets,
            clocks,
        ),
    decreases m,
{
    if n < m {
        lemma_references_fault_stays(p, decls, n, (m - 1) as nat, alphabets, clocks);
    }
}

/// The fault of a name that the program does not declare.
fn unknown(what: &str, name: &str, program: &str) -> (f: Fault)
    ensures
        f@ == unknown_reference(what@, name@, program@),
{
    let mut message = String::from_str("Could not find ");
    message.append(what);
    message.append(" (");
    message.append(name);
    message.append(") for Program (");
    message.append(program);
    message.append(")");
    Fault::new(ErrorKind::UnknownReference, message)
}

/// The type of a stream in the emitted code.
fn stream_type_of(alphabet: &str, clock: &str, size: &str) -> (r: Result<String, Fault>)
    ensures
        match r {
            Ok(t) => {
                &&& mint_fault(alphabet@, Style::Pascal) is None
                &&& mint_fault(clock@, Style::Pascal) is None
                &&& t@ == stream_type(alphabet@, clock@, size@)
            },
            Err(f) => or_fault(
                mint_fault(alphabet@, Style::Pascal),
                mint_fault(clock@, Style::Pascal),
            ) == Some(f@),
        },
{
    let a = mint(alphabet, Style::Pascal)?;
    let c = mint(clock, Style::Pascal)?;
    let mut t = String::from_str("Stream<Alphabet");
    t.append(a.as_str());
    t.append(", Clock");
    t.append(c.as_str());
    t.append(", ");
    t.append(size);
    t.append(">");
    Ok(t)
}

/// The field of a stream in the record of the emitted program.
fn field(prefix: &str, name: &str, alphabet: &str, clock: &str, size: &str) -> (r: Result<
    String,
    Fault,
>)
    ensures
        match r {
            Ok(t) => decl_fault(name@, alphabet@, clock@, size@) is None && t@ == field_text(
                prefix@,
                name@,
                alphabet@,
                clock@,
                size@,
            ),
            Err(f) => decl_fault(name@, alphabet@, clock@, size@) == Some(f@),
        },
{
    check_decl(name, alphabet, clock, size)?;
    let n = mint(name, Style::Snake)?;
    let ty = stream_type_of(alphabet, clock, size)?;
    let mut t = String::from_str("    pub ");
    t.append(prefix);
    t.append(n.as_str());
    t.append(": ");
    t.append(ty.as_str());
    t.append(",\n");
    Ok(t)
}

/// The line of the emitted constructor that makes a stream.
fn init(prefix: &str, d: &StreamDecl) -> (r: Result<String, Fault>)
    ensures
        match r {
            Ok(t) => decl_fault(d@.name, d@.alphabet, d@.clock, d@.size) is None && t@
                == init_text(prefix@, d@),
            Err(f) => decl_fault(d@.name, d@.alphabet, d@.clock, d@.size) == Some(f@),
        },
{
    check_decl(d.name.as_str(), d.alphabet.as_str(), d.clock.as_str(), d.size.as_str())?;
    let n = mint(d.name.as_str(), Style::Snake)?;
    let ty = stream_type_of(d.alphabet.as_str(), d.clock.as_str(), d.size.as_str())?;
    let mut t = String::from_str("            ");
    t.append(prefix);
    t.append(n.as_str());
    t.append(": <");
    t.append(ty.as_str());
    t.append(">::new(),\n");
    Ok(t)
}

/// The place of an exit in the emitted record.
fn exit_place_of(e: &str) -> (r: Result<String, Fault>)
    ensures
        match r {
            Ok(t) => mint_fault(e@, Style::Snake) is None && t@ == exit_place(e@),
            Err(f) => mint_fault(e@, Style::Snake) == Some(f@),
        },
{
    let n = mint(e, Style::Snake)?;
    let mut t = String::from_str("        self.exit_");
    t.append(n.as_str());
    Ok(t)
}

/// The guard of a jump.
fn guard(a: &str, b: &str, clock_a: &str, clock_b: &str) -> (r: Result<String, Fault>)
    ensures
        match r {
            Ok(t) => {
                &&& mint_fault(clock_a@, Style::Pascal) is None
                &&& mint_fault(clock_b@, Style::Pascal) is None
                &&& t@ == guard_text(a@, b@, clock_a@, clock_b@)
            },
            Err(f) => or_fault(
                mint_fault(clock_a@, Style::Pascal),
                mint_fault(clock_b@, Style::Pascal),
            ) == Some(f@),
        },
{
    let ca = mint(clock_a, Style::Pascal)?;
    let cb = mint(clock_b, Style::Pascal)?;
    let mut t = String::from_str("        if Clock");
    t.append(ca.as_str());
    t.append("::represents() != Clock");
    t.append(cb.as_str());
    t.append("::represents() {\n            panic!(\"(Clock of) Gateway ");
    t.append(a);
    t.append(" and (Clock of) Gateway ");
    t.append(b);
    t.append(" being compared while not representing the same thing\");\n        }\n");
    Ok(t)
}

/// The branch of a jump.
fn branch(earlier: bool, l: &str, a: &str, b: &str) -> (r: Result<String, Fault>)
    ensures
        match r {
            Ok(t) => {
                &&& mint_fault(l@, Style::Snake) is None
                &&& mint_fault(a@, Style::Snake) is None
                &&& mint_fault(b@, Style::Snake) is None
                &&& t@ == branch_text(earlier, l@, a@, b@)
            },
            Err(f) => or_fault(
                mint_fault(l@, Style::Snake),
                or_fault(mint_fault(a@, Style::Snake), mint_fault(b@, Style::Snake)),
            ) == Some(f@),
        },
{
    let sl = mint(l, Style::Snake)?;
    let sa = mint(a, Style::Snake)?;
    let sb = mint(b, Style::Snake)?;
    let mut t = String::from_str("        match (self.gateway_");
    t.append(sa.as_str());
    t.append(".current_moment(), self.gateway_");
    t.append(sb.as_str());
    t.append(".current_moment()) {\n            ");
    t.append(
        if earlier {
            "(None, Some(_))"
        } else {
            "(Some(_), None)"
        },
    );
    t.append(" => {\n                return self.label_");
    t.append(sl.as_str());
    t.append("();\n            }\n            (Some(a), Some(b)) if ");
    t.append(
        if earlier {
            "a < b"
        } else {
            "a > b"
        },
    );
    t.append(" => {\n                return self.label_");
    t.append(sl.as_str());
    t.append("();\n            }\n            _ => (),\n        }\n");
    Ok(t)
}

/// The lowered form of `forward_duration`.
fn forward_duration(g: &str, e: &str) -> (r: Result<String, Fault>)
    ensures
        match r {
            Ok(t) => {
                &&& mint_fault(g@, Style::Snake) is None
                &&& mint_fault(e@, Style::Snake) is None
                &&& t@ == forward_duration_text(g@, e@)
            },
            Err(f) => or_fault(mint_fault(g@, Style::Snake), mint_fault(e@, Style::Snake)) == Some(
                f@,
            ),
        },
{
    let sg = mint(g, Style::Snake)?;
    let se = mint(e, Style::Snake)?;
    let mut t = String::from_str("        loop {\n            match self.gateway_");
    t.append(sg.as_str());
    t.append(
        ".pop() {\n                StreamItem::Character(chr) => {\n                    self.exit_",
    );
    t.append(se.as_str());
    t.append(".push(chr).expect(\"Failed to forward character from Gateway ");
    t.append(g);
    t.append(" to Exit ");
    t.append(e);
    t.append(
        "\");\n                }\n                StreamItem::Moment(moment) => {\n                    self.exit_",
    );
    t.append(se.as_str());
    t.append(".push_moment(moment).expect(\"Failed to forward moment from Gateway ");
    t.append(g);
    t.append(" to Exit ");
    t.append(e);
    t.append(
        "\");\n                    break;\n                }\n                StreamItem::Empty => continue,\n            }\n        }\n",
    );
    Ok(t)
}

/// The fields and the constructor lines of a list of declarations.
fn streams(prefix: &str, decls: &Vec<StreamDecl>) -> (r: Result<(String, String), Fault>)
    ensures
        match r {
            Ok((fields, inits)) => {
                let v = decls@.map_values(|d: StreamDecl| d@);
                &&& decls_fault(v, v.len()) is None
                &&& fields@ == fields_text(prefix@, v, v.len())
                &&& inits@ == inits_text(prefix@, v, v.len())
            },
            Err(f) => {
                let v = decls@.map_values(|d: StreamDecl| d@);
                decls_fault(v, v.len()) == Some(f@)
            },
        },
{
    let ghost v = decls@.map_values(|d: StreamDecl| d@);
    let mut fields = String::new();
    let mut inits = String::new();
    let mut i: usize = 0;
    while i < decls.len()
        invariant
            i <= decls.len(),
            v == decls@.map_values(|d: StreamDecl| d@),
            decls_fault(v, i as nat) is None,
            fields@ == fields_text(prefix@, v, i as nat),
            inits@ == inits_text(prefix@, v, i as nat),
        decreases decls.len() - i,
    {
        let d = &decls[i];
        assert(v[i as int] == d@);
        let one = match field(
            prefix,
            d.name.as_str(),
            d.alphabet.as_str(),
            d.clock.as_str(),
            d.size.as_str(),
        ) {
            Ok(t) => t,
            Err(f) => {
                proof {
                    assert(decls_fault(v, (i + 1) as nat) == Some(f@));
                    lemma_decls_fault_stays(v, (i + 1) as nat, v.len());
                }
                return Err(f);
            },
        };
        fields.append(one.as_str());
        let one = match init(prefix, d) {
            Ok(t) => t,
            Err(f) => {
                return Err(f);
            },
        };
        inits.append(one.as_str());
        i += 1;
    }
    Ok((fields, inits))
}

/// The place of the first of some names that is this name.
pub fn find_name(names: &Vec<String>, name: &str) -> (found: Option<usize>)
    ensures
        match found {
            Some(i) => first_position(views(names@), name@) == Some(i as int) && i < names.len(),
            None => first_position(views(names@), name@) is None,
        },
{
    let mut i: usize = 0;
    while i < names.len()
        invariant
            i <= names.len(),
            forall|j: int| 0 <= j < i ==> views(names@)[j] != name@,
        decreases names.len() - i,
    {
        assert(views(names@)[i as int] == names[i as int]@);
        if str_equal(names[i].as_str(), name) {
            proof {
                lemma_first_position(views(names@), name@, i as int);
            }
            return Some(i);
        }
        i += 1;
    }
    proof {
        lemma_no_position(views(names@), name@);
    }
    None
}

impl Program {
    /// The alphabet that an exit is declared with.
    fn exit_alphabet(&self, e: &str) -> (r: Result<&str, Fault>)
        ensures
            match r {
                Ok(a) => self@.exit_fault(e@) is None && a@ == self@.alphabet_of(e@),
                Err(f) => self@.exit_fault(e@) == Some(f@),
            },
    {
        match find_decl(&self.exits, e) {
            Some(i) => {
                assert(self@.exits[i as int] == self.exits[i as int]@);
                check_mint(self.exits[i].alphabet.as_str(), Style::Pascal)?;
                Ok(self.exits[i].alphabet.as_str())
            },
            None => Err(unknown("Exit", e, self.name.as_str())),
        }
    }

    /// The clock that a gateway is declared with.
    fn gateway_clock(&self, g: &str) -> (r: Result<&str, Fault>)
        ensures
            match r {
                Ok(c) => self@.gateway_fault(g@) is None && c@ == self@.clock_of(g@),
                Err(f) => self@.gateway_fault(g@) == Some(f@),
            },
    {
        match find_decl(&self.gateways, g) {
            Some(i) => {
                assert(self@.gateways[i as int] == self.gateways[i as int]@);
                check_mint(self.gateways[i].clock.as_str(), Style::Pascal)?;
                Ok(self.gateways[i].clock.as_str())
            },
            None => Err(unknown("Gateway", g, self.name.as_str())),
        }
    }

    /// Tests that a label names a block.
    fn check_label(&self, l: &str) -> (r: Result<(), Fault>)
        ensures
            match r {
                Ok(_) => self@.label_fault(l@) is None,
                Err(f) => self@.label_fault(l@) == Some(f@),
            },
    {
        match self.find_label(l) {
            Some(_) => Ok(()),
            None => Err(unknown("Label", l, self.name.as_str())),
        }
    }

    /// The field of a gateway in the record of the emitted program. The
    /// declaration is refused where a name cannot be minted or the size is no
    /// positive literal.
    pub fn gateway_field(&self, name: &String, alphabet: &String, clock: &String, buf_size: &String) -> (r:
        Result<String, Fault>)
        ensures
            match r {
                Ok(t) => decl_fault(name@, alphabet@, clock@, buf_size@) is None && t@
                    == field_text("gateway_"@, name@, alphabet@, clock@, buf_size@),
                Err(f) => decl_fault(name@, alphabet@, clock@, buf_size@) == Some(f@),
            },
    {
        field("gateway_", name.as_str(), alphabet.as_str(), clock.as_str(), buf_size.as_str())
    }

    /// The field of an exit in the record of the emitted program. The
    /// declaration is refused where a name cannot be minted or the size is no
    /// positive literal.
    pub fn exit_field(&self, name: &String, alphabet: &String, clock: &String, buf_size: &String) -> (r:
        Result<String, Fault>)
        ensures
            match r {
                Ok(t) => decl_fault(name@, alphabet@, clock@, buf_size@) is None && t@
                    == field_text("exit_"@, name@, alphabet@, clock@, buf_size@),
                Err(f) => decl_fault(name@, alphabet@, clock@, buf_size@) == Some(f@),
            },
    {
        field("exit_", name.as_str(), alphabet.as_str(), clock.as_str(), buf_size.as_str())
    }

    /// The lowered form of a jump.
    fn jump(&self, earlier: bool, l: &str, a: &str, b: &str) -> (r: Result<String, Fault>)
        ensures
            match r {
                Ok(t) => {
                    &&& or_fault(
                        mint_fault(l@, Style::Snake),
                        or_fault(mint_fault(a@, Style::Snake), mint_fault(b@, Style::Snake)),
                    ) is None
                    &&& or_fault(
                        self@.label_fault(l@),
                        or_fault(self@.gateway_fault(a@), self@.gateway_fault(b@)),
                    ) is None
                    &&& t@ == guard_text(a@, b@, self@.clock_of(a@), self@.clock_of(b@))
                        + branch_text(earlier, l@, a@, b@)
                },
                Err(f) => or_fault(
                    or_fault(
                        mint_fault(l@, Style::Snake),
                        or_fault(mint_fault(a@, Style::Snake), mint_fault(b@, Style::Snake)),
                    ),
                    or_fault(
                        self@.label_fault(l@),
                        or_fault(self@.gateway_fault(a@), self@.gateway_fault(b@)),
                    ),
                ) == Some(f@),
            },
    {
        let tail = branch(earlier, l, a, b)?;
        self.check_label(l)?;
        let clock_a = self.gateway_clock(a)?;
        let clock_b = self.gateway_clock(b)?;
        let mut t = guard(a, b, clock_a, clock_b)?;
        t.append(tail.as_str());
        Ok(t)
    }

    /// Lowers one instruction to the statements that stand for it in the
    /// method of its block. The instruction is refused where its arguments
    /// are not of the kinds that it takes, where a literal is malformed or a
    /// name cannot be minted, where it names an exit, a gateway or a label
    /// that the program does not declare, and where it is `connect` or
    /// `reg_exit_gateway`, which are not lowered.
    pub fn instruction_call(&self, instruction: &Instruction) -> (r: Result<String, Fault>)
        ensures
            match r {
                Ok(t) => self@.instruction_fault(instruction@) is None && t@
                    == self@.instruction_text(instruction@),
                Err(f) => self@.instruction_fault(instruction@) == Some(f@),
            },
    {
        reveal(ProgramView::instruction_fault);
        reveal(ProgramView::instruction_text);
        match instruction {
            Instruction::StartMoment(ArgType::Moment(m), ArgType::Exit(e)) => {
                check_literal(m.as_str())?;
                let mut t = exit_place_of(e.as_str())?;
                self.exit_alphabet(e.as_str())?;
                t.append(".set_initial_moment(");
                t.append(m.as_str());
                t.append(");\n");
                Ok(t)
            },
            Instruction::PushMoment(ArgType::Moment(m), ArgType::Exit(e)) => {
                check_literal(m.as_str())?;
                let mut t = exit_place_of(e.as_str())?;
                self.exit_alphabet(e.as_str())?;
                t.append(".push_moment(");
                t.append(m.as_str());
                t.append(").expect(\"Could not push_moment to Exit (");
                t.append(e.as_str());
                t.append(")\");\n");
                Ok(t)
            },
            Instruction::PushChar(ArgType::Character(c), ArgType::Exit(e)) => {
                let variant = mint_bare(c.as_str(), Style::Pascal)?;
                let mut t = exit_place_of(e.as_str())?;
                let alphabet = self.exit_alphabet(e.as_str())?;
                let ty = mint(alphabet, Style::Pascal)?;
                t.append(".push(<Alphabet");
                t.append(ty.as_str());
                t.append(" as AlphabetLike>::CharEnum::");
                t.append(variant.as_str());
                t.append("()).expect(\"Could not push_char (\\\"");
                t.append(c.as_str());
                t.append("\\\")\");\n");
                Ok(t)
            },
            Instruction::PushVal(ArgType::Number(v), ArgType::Exit(e)) => {
                check_literal(v.as_str())?;
                let mut t = exit_place_of(e.as_str())?;
                let alphabet = self.exit_alphabet(e.as_str())?;
                let ty = mint(alphabet, Style::Pascal)?;
                t.append(".push(Alphabet");
                t.append(ty.as_str());
                t.append("::to_char(");
                t.append(v.as_str());
                t.append(").expect(\"No character found in Alphabet (");
                t.append(alphabet);
                t.append("): \\\"");
                t.append(v.as_str());
                t.append("\\\"\")).expect(\"Could not push_val to Exit (");
                t.append(e.as_str());
                t.append(")\");\n");
                Ok(t)
            },
            Instruction::ForwardDuration(ArgType::Gateway(g), ArgType::Exit(e)) => {
                let t = forward_duration(g.as_str(), e.as_str())?;
                self.gateway_clock(g.as_str())?;
                self.exit_alphabet(e.as_str())?;
                Ok(t)
            },
            Instruction::JumpEarlier(
                ArgType::Label(l),
                ArgType::Gateway(a),
                ArgType::Gateway(b),
            ) => self.jump(true, l.as_str(), a.as_str(), b.as_str()),
            Instruction::JumpLater(
                ArgType::Label(l),
                ArgType::Gateway(a),
                ArgType::Gateway(b),
            ) => self.jump(false, l.as_str(), a.as_str(), b.as_str()),
            _ => Err(refuse_instruction(instruction)),
        }
    }

    /// Lowers a block to its method `label_<name>`: the lowered forms of its
    /// instructions, in their order.
    pub fn func_def(&self, name: &String, instructions: &Vec<Instruction>) -> (r: Result<
        String,
        Fault,
    >)
        ensures
            match r {
                Ok(t) => self@.func_fault(name@, instruction_views(instructions@)) is None && t@
                    == self@.func_text(name@, instruction_views(instructions@)),
                Err(f) => self@.func_fault(name@, instruction_views(instructions@)) == Some(f@),
            },
    {
        let ghost views = instruction_views(instructions@);
        let minted = mint(name.as_str(), Style::Snake)?;
        let mut body = String::new();
        let mut i: usize = 0;
        while i < instructions.len()
            invariant
                i <= instructions.len(),
                views == instruction_views(instructions@),
                mint_fault(name@, Style::Snake) is None,
                self@.body_fault(views, i as nat) is None,
                body@ == self@.body_text(views, i as nat),
            decreases instructions.len() - i,
        {
            assert(views[i as int] == instructions[i as int]@);
            match self.instruction_call(&instructions[i]) {
                Ok(t) => {
                    body.append(t.as_str());
                },
                Err(f) => {
                    proof {
                        assert(self@.body_fault(views, (i + 1) as nat) == Some(f@));
                        lemma_body_fault_stays(self@, views, (i + 1) as nat, views.len());
                    }
                    return Err(f);
                },
            }
            i += 1;
        }
        let mut t = String::from_str("    pub fn label_");
        t.append(minted.as_str());
        t.append("(&mut self) {\n");
        t.append(body.as_str());
        t.append("    }\n");
        Ok(t)
    }

    /// Tests that every jump of block `k` goes to a later block.
    fn check_directions(&self, k: usize) -> (r: Result<(), Fault>)
        requires
            k < self@.blocks.len(),
        ensures
            match r {
                Ok(_) => self@.directions_fault(
                    k as nat,
                    self@.blocks[k as int].instructions.len(),
                ) is None,
                Err(f) => self@.directions_fault(
                    k as nat,
                    self@.blocks[k as int].instructions.len(),
                ) == Some(f@),
            },
    {
        assert(self@.blocks[k as int] == self.instructions[k as int]@);
        let instructions = &self.instructions[k].instructions;
        let ghost views = self@.blocks[k as int].instructions;
        let mut i: usize = 0;
        while i < instructions.len()
            invariant
                i <= instructions.len(),
                k < self@.blocks.len(),
                views == self@.blocks[k as int].instructions,
                views == instruction_views(instructions@),
                self@.directions_fault(k as nat, i as nat) is None,
            decreases instructions.len() - i,
        {
            assert(views[i as int] == instructions[i as int]@);
            let target = match &instructions[i] {
                Instruction::JumpEarlier(ArgType::Label(l), _, _) => Some(l),
                Instruction::JumpLater(ArgType::Label(l), _, _) => Some(l),
                _ => None,
            };
            assert(match target {
                Some(l) => jump_target(views[i as int]) == Some(l@),
                None => jump_target(views[i as int]) is None,
            });
            if let Some(l) = target {
                if let Some(t) = self.find_label(l.as_str()) {
                    if t <= k {
                        let mut message = String::from_str("Label (");
                        message.append(l.as_str());
                        message.append(") is not a later block of Program (");
                        message.append(self.name.as_str());
                        message.append(")");
                        let f = Fault::new(ErrorKind::UnknownReference, message);
                        proof {
                            assert(self@.directions_fault(k as nat, (i + 1) as nat) == Some(f@));
                            lemma_directions_fault_stays(
                                self@,
                                k as nat,
                                (i + 1) as nat,
                                views.len(),
                            );
                        }
                        return Err(f);
                    }
                }
            }
            i += 1;
        }
        Ok(())
    }

    /// The methods of all blocks.
    fn funcs(&self) -> (r: Result<String, Fault>)
        ensures
            match r {
                Ok(t) => self@.blocks_fault(self@.blocks.len()) is None && t@ == self@.funcs_text(
                    self@.blocks.len(),
                ),
                Err(f) => self@.blocks_fault(self@.blocks.len()) == Some(f@),
            },
    {
        let mut out = String::new();
        let mut k: usize = 0;
        while k < self.instructions.len()
            invariant
                k <= self.instructions.len(),
                self@.blocks.len() == self.instructions.len(),
                self@.blocks_fault(k as nat) is None,
                out@ == self@.funcs_text(k as nat),
            decreases self.instructions.len() - k,
        {
            assert(self@.blocks[k as int] == self.instructions[k as int]@);
            let block = &self.instructions[k];
            let one = match self.func_def(&block.name, &block.instructions) {
                Ok(t) => t,
                Err(f) => {
                    proof {
                        assert(self@.blocks_fault((k + 1) as nat) == Some(f@));
                        lemma_blocks_fault_stays(self@, (k + 1) as nat, self@.blocks.len());
                    }
                    return Err(f);
                },
            };
            match self.check_directions(k) {
                Ok(_) => {},
                Err(f) => {
                    proof {
                        assert(self@.blocks_fault((k + 1) as nat) == Some(f@));
                        lemma_blocks_fault_stays(self@, (k + 1) as nat, self@.blocks.len());
                    }
                    return Err(f);
                },
            }
            out.append(one.as_str());
            k += 1;
        }
        Ok(out)
    }

    /// Renders the program: the record with one field for each gateway and
    /// exit, its constructor, and one method for each block. The program is
    /// refused where a name cannot be minted, a declaration or an instruction
    /// is refused, an instruction names what the program does not declare,
    /// or a jump does not go to a later block.
    pub fn generate(&self) -> (r: Result<String, Fault>)
        ensures
            match r {
                Ok(code) => self@.fault() is None && code@ == self@.text(),
                Err(f) => self@.fault() == Some(f@),
            },
    {
        let ty = mint(self.name.as_str(), Style::Pascal)?;
        let (gateway_fields, gateway_inits) = streams("gateway_", &self.gateways)?;
        let (exit_fields, exit_inits) = streams("exit_", &self.exits)?;
        let funcs = self.funcs()?;

        let mut out = String::from_str("pub struct Program");
        out.append(ty.as_str());
        out.append(" {\n");
        out.append(gateway_fields.as_str());
        out.append(exit_fields.as_str());
        out.append("}\n");
        assert(out@ == self@.record_text());
        out.append("impl Program");
        out.append(ty.as_str());
        out.append(" {\n");

        let mut part = String::from_str("    pub const fn new() -> Self {\n        Self {\n");
        part.append(gateway_inits.as_str());
        part.append(exit_inits.as_str());
        part.append("        }\n    }\n");
        out.append(part.as_str());
        out.append(funcs.as_str());
        out.append("}\n");
        Ok(out)
    }

    /// Tests the first declarations of a list against the known names.
    fn check_decl_references(
        &self,
        gateway: bool,
        alphabets: &Vec<String>,
        clocks: &Vec<String>,
    ) -> (r: Result<(), Fault>)
        ensures
            match r {
                Ok(_) => self@.references_fault(
                    if gateway {
                        self@.gateways
                    } else {
                        self@.exits
                    },
                    if gateway {
                        self@.gateways.len()
                    } else {
                        self@.exits.len()
                    },
                    views(alphabets@),
                    views(clocks@),
                ) is None,
                Err(f) => self@.references_fault(
                    if gateway {
                        self@.gateways
                    } else {
                        self@.exits
                    },
                    if gateway {
                        self@.gateways.len()
                    } else {
                        self@.exits.len()
                    },
                    views(alphabets@),
                    views(clocks@),
                ) == Some(f@),
            },
    {
        let decls = if gateway {
            &self.gateways
        } else {
            &self.exits
        };
        let ghost v = if gateway {
            self@.gateways
        } else {
            self@.exits
        };
        let mut i: usize = 0;
        while i < decls.len()
            invariant
                i <= decls.len(),
                v == decls@.map_values(|d: StreamDecl| d@),
                v == (if gateway {
                    self@.gateways
                } else {
                    self@.exits
                }),
                self@.references_fault(v, i as nat, views(alphabets@), views(clocks@)) is None,
            decreases decls.len() - i,
        {
            let d = &decls[i];
            assert(v[i as int] == d@);
            if find_name(alphabets, d.alphabet.as_str()).is_none() {
                let f = unknown("Alphabet", d.alphabet.as_str(), self.name.as_str());
                proof {
                    assert(self@.references_fault(
                        v,
                        (i + 1) as nat,
                        views(alphabets@),
                        views(clocks@),
                    ) == Some(f@));
                    lemma_references_fault_stays(
                        self@,
                        v,
                        (i + 1) as nat,
                        v.len(),
                        views(alphabets@),
                        views(clocks@),
                    );
                }
                return Err(f);
            }
            if find_name(clocks, d.clock.as_str()).is_none() {
                let f = unknown("Clock", d.clock.as_str(), self.name.as_str());
                proof {
                    assert(self@.references_fault(
                        v,
                        (i + 1) as nat,
                        views(alphabets@),
                        views(clocks@),
                    ) == Some(f@));
                    lemma_references_fault_stays(
                        self@,
                        v,
                        (i + 1) as nat,
                        v.len(),
                        views(alphabets@),
                        views(clocks@),
                    );
                }
                return Err(f);
            }
            i += 1;
        }
        Ok(())
    }

    /// Tests that every alphabet and every clock that a gateway or an exit
    /// of the program names is among those given.
    pub fn check_references(&self, alphabets: &Vec<String>, clocks: &Vec<String>) -> (r: Result<
        (),
        Fault,
    >)
        ensures
            match r {
                Ok(_) => self@.unresolved(views(alphabets@), views(clocks@)) is None,
                Err(f) => self@.unresolved(views(alphabets@), views(clocks@)) == Some(f@),
            },
    {
        self.check_decl_references(true, alphabets, clocks)?;
        self.check_decl_references(false, alphabets, clocks)
    }
}

} // verus!
