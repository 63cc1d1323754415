//! Clocks: named moment types, each tagged with what its moments mean.

use crate::error::{
    bad_type, refused, CompileError, ErrorKind, Fault, FaultView,
};
use crate::ident::{bare_mint_fault, cased, mint, mint_bare, mint_fault, Style};
use crate::text::{bare_identifier, is_bare_identifier, str_equal, str_views};
use vstd::prelude::*;
use vstd::string::*;

verus! {

/// A clock under construction.
#[derive(Debug)]
pub struct Clock {
    name: String,
    moment_type: Option<String>,
    repr: Option<String>,
}

pub struct ClockView {
    pub name: Seq<char>,
    /// The integer type that carries a moment, once `set_moment_type` gave it.
    pub moment_type: Option<Seq<char>>,
    /// The tag that says what the moments mean, once `set_clock_repr` gave it.
    pub repr: Option<Seq<char>>,
}

impl View for Clock {
    type V = ClockView;

    closed spec fn view(&self) -> ClockView {
        ClockView {
            name: self.name@,
            moment_type: match self.moment_type {
                Some(t) => Some(t@),
                None => None,
            },
            repr: match self.repr {
                Some(t) => Some(t@),
                None => None,
            },
        }
    }
}

/// The fault of a second `set_moment_type`.
pub open spec fn moment_type_set_twice(clock: Seq<char>) -> FaultView {
    FaultView {
        kind: ErrorKind::DuplicateName,
        message: "moment type is already set for clock: "@ + clock,
    }
}

/// The fault of a second `set_clock_repr`.
pub open spec fn repr_set_twice(clock: Seq<char>) -> FaultView {
    FaultView {
        kind: ErrorKind::DuplicateName,
        message: "representation is already set for clock: "@ + clock,
    }
}

/// The fault of a clock that is rendered without a representation.
pub open spec fn missing_repr(clock: Seq<char>) -> FaultView {
    FaultView {
        kind: ErrorKind::MissingField,
        message: "Never called set_clock_repr on Clock ("@ + clock + ")"@,
    }
}

/// The fault of a clock that is rendered without a moment type.
pub open spec fn missing_moment_type(clock: Seq<char>) -> FaultView {
    FaultView {
        kind: ErrorKind::MissingField,
        message: "Never called set_moment_type on Clock ("@ + clock + ")"@,
    }
}

/// The clock after a command, or why the command is refused.
///
/// `set_moment_type T` names the integer type of the moments and
/// `set_clock_repr TAG` the meaning of the moments; each is accepted once.
pub open spec fn clock_step(c: ClockView, cmd: Seq<char>, args: Seq<Seq<char>>) -> Result<
    ClockView,
    FaultView,
> {
    if cmd == "set_moment_type"@ {
        if args.len() != 1 {
            Err(refused(ErrorKind::MalformedArgs, "Clock"@, c.name, cmd, args))
        } else if !is_bare_identifier(args[0]) {
            Err(bad_type(args[0]))
        } else if c.moment_type is Some {
            Err(moment_type_set_twice(c.name))
        } else {
            Ok(ClockView { moment_type: Some(args[0]), ..c })
        }
    } else if cmd == "set_clock_repr"@ {
        if args.len() != 1 {
            Err(refused(ErrorKind::MalformedArgs, "Clock"@, c.name, cmd, args))
        } else {
            match bare_mint_fault(args[0], Style::Pascal) {
                Some(f) => Err(f),
                None => if c.repr is Some {
                    Err(repr_set_twice(c.name))
                } else {
                    Ok(ClockView { repr: Some(args[0]), ..c })
                },
            }
        }
    } else {
        Err(refused(ErrorKind::UnknownCommand, "Clock"@, c.name, cmd, args))
    }
}

/// The carrier type of the emitted code with its two functions: `ty` is the
/// minted name of the clock, `rep` its moment type, `variant` the minted tag
/// and `tag` the tag as the source wrote it.
pub open spec fn carrier_text(
    ty: Seq<char>,
    rep: Seq<char>,
    variant: Seq<char>,
    tag: Seq<char>,
) -> Seq<char> {
    "pub struct Clock"@ + ty + " {}\nimpl Clock"@ + ty + " {\n    const fn to_moment(rep: "@ + rep
        + ") -> ClockMoment<"@ + rep + "> {\n        ClockMoment::"@ + variant
        + "(rep)\n    }\n    const fn represents() -> &'static str {\n        \""@ + tag
        + "\"\n    }\n}\n"@
}

/// The part of the emitted code that hands the clock to the runtime and
/// marks it as one whose moments can be added to.
pub open spec fn capability_text(ty: Seq<char>, rep: Seq<char>) -> Seq<char> {
    "impl ClockLike for Clock"@ + ty + " {\n    type MomentRep = "@ + rep
        + ";\n    fn represents(&self) -> &str {\n        <Clock"@ + ty
        + ">::represents()\n    }\n    fn to_moment(rep: "@ + rep + ") -> ClockMoment<"@ + rep
        + "> {\n        <Clock"@ + ty + ">::to_moment(rep)\n    }\n}\nimpl AddableClockLike<"@ + rep
        + "> for Clock"@ + ty + " {}\n"@
}

impl ClockView {
    /// The invariant of a clock: the moment type, once set, is the name of a
    /// type, and the representation, once set, mints to a variant.
    pub open spec fn wf(self) -> bool {
        &&& self.moment_type matches Some(rep) ==> is_bare_identifier(rep)
        &&& self.repr matches Some(tag) ==> bare_mint_fault(tag, Style::Pascal) is None
    }

    /// Why the clock cannot be rendered, if it cannot: it lacks its
    /// representation or its moment type, or one of its names cannot be
    /// minted.
    pub open spec fn fault(self) -> Option<FaultView> {
        match self.repr {
            None => Some(missing_repr(self.name)),
            Some(tag) => match self.moment_type {
                None => Some(missing_moment_type(self.name)),
                Some(rep) => if !is_bare_identifier(rep) {
                    Some(bad_type(rep))
                } else {
                    match bare_mint_fault(tag, Style::Pascal) {
                        Some(f) => Some(f),
                        None => mint_fault(self.name, Style::Pascal),
                    }
                },
            },
        }
    }

    /// The emitted code of the clock: its carrier type, the function that
    /// wraps a moment in the variant of the tag, the function that returns
    /// the tag as the source wrote it, and the impls for the runtime.
    pub open spec fn text(self) -> Seq<char> {
        let ty = cased(self.name, Style::Pascal);
        let rep = self.moment_type->0;
        let tag = self.repr->0;
        carrier_text(ty, rep, cased(tag, Style::Pascal), tag) + capability_text(ty, rep)
    }
}

impl Clock {
    /// A clock without a moment type and without a representation.
    pub fn new(name: String) -> (clock: Self)
        ensures
            clock@ == (ClockView { name: name@, moment_type: None, repr: None }),
            clock@.wf(),
    {
        Clock { name, moment_type: None, repr: None }
    }

    /// The name of the clock, as the source wrote it.
    pub fn name(&self) -> (name: &str)
        ensures
            name@ == self@.name,
    {
        self.name.as_str()
    }

    /// The fault of a command that the clock refuses.
    fn refuse(&self, kind: ErrorKind, cmd: &str, args: &[&str]) -> (f: Fault)
        ensures
            f@ == refused(kind, "Clock"@, self@.name, cmd@, str_views(args@)),
    {
        Fault::refused(kind, "Clock", self.name.as_str(), cmd, args)
    }

    /// What `process_command` does, with the fault not yet tied to a place.
    fn step(&mut self, cmd: &str, args: &[&str]) -> (r: Result<(), Fault>)
        ensures
            match r {
                Ok(_) => clock_step(old(self)@, cmd@, str_views(args@)) == Ok::<
                    ClockView,
                    FaultView,
                >(final(self)@),
                Err(f) => clock_step(old(self)@, cmd@, str_views(args@)) == Err::<
                    ClockView,
                    FaultView,
                >(f@) && final(self)@ == old(self)@,
            },
    {
        if str_equal(cmd, "set_moment_type") {
            if args.len() != 1 {
                return Err(self.refuse(ErrorKind::MalformedArgs, cmd, args));
            }
            if !bare_identifier(args[0]) {
                return Err(Fault::bad_type(args[0]));
            }
            if self.moment_type.is_some() {
                return Err(
                    Fault::about(
                        ErrorKind::DuplicateName,
                        "moment type is already set for clock: ",
                        self.name.as_str(),
                    ),
                );
            }
            self.moment_type = Some(args[0].to_owned());
            Ok(())
        } else if str_equal(cmd, "set_clock_repr") {
            if args.len() != 1 {
                return Err(self.refuse(ErrorKind::MalformedArgs, cmd, args));
            }
            mint_bare(args[0], Style::Pascal)?;
            if self.repr.is_some() {
                return Err(
                    Fault::about(
                        ErrorKind::DuplicateName,
                        "representation is already set for clock: ",
                        self.name.as_str(),
                    ),
                );
            }
            self.repr = Some(args[0].to_owned());
            Ok(())
        } else {
            Err(self.refuse(ErrorKind::UnknownCommand, cmd, args))
        }
    }

    /// Applies one command of the source to the clock: `set_moment_type` or
    /// `set_clock_repr`. A refused command leaves the clock as it was.
    pub fn process_command(&mut self, filename: &str, lineno: usize, cmd: &str, args: &[&str]) -> (r:
        Result<(), CompileError>)
        ensures
            match r {
                Ok(_) => clock_step(old(self)@, cmd@, str_views(args@)) == Ok::<
                    ClockView,
                    FaultView,
                >(final(self)@),
                Err(e) => final(self)@ == old(self)@ && (clock_step(
                    old(self)@,
                    cmd@,
                    str_views(args@),
                ) matches Err(f) && e@ == f.at(filename@, lineno as nat)),
            },
            old(self)@.wf() ==> final(self)@.wf(),
    {
        match self.step(cmd, args) {
            Ok(()) => Ok(()),
            Err(f) => Err(f.at(filename, lineno)),
        }
    }

    /// Renders the clock. A clock without its representation or its moment
    /// type is refused, and so is one with a name that cannot be minted.
    pub fn generate(&self) -> (r: Result<String, Fault>)
        ensures
            match r {
                Ok(code) => self@.fault() is None && code@ == self@.text(),
                Err(f) => self@.fault() == Some(f@),
            },
    {
        let tag = match &self.repr {
            Some(tag) => tag.as_str(),
            None => {
                let mut message = String::from_str("Never called set_clock_repr on Clock (");
                message.append(self.name.as_str());
                message.append(")");
                return Err(Fault::new(ErrorKind::MissingField, message));
            },
        };
        let rep = match &self.moment_type {
            Some(rep) => rep.as_str(),
            None => {
                let mut message = String::from_str("Never called set_moment_type on Clock (");
                message.append(self.name.as_str());
                message.append(")");
                return Err(Fault::new(ErrorKind::MissingField, message));
            },
        };
        if !bare_identifier(rep) {
            return Err(Fault::bad_type(rep));
        }
        let variant = mint_bare(tag, Style::Pascal)?;
        let ty = mint(self.name.as_str(), Style::Pascal)?;
        let ty = ty.as_str();

        let mut out = String::from_str("pub struct Clock");
        out.append(ty);
        out.append(" {}\nimpl Clock");
        out.append(ty);
        out.append(" {\n    const fn to_moment(rep: ");
        out.append(rep);
        out.append(") -> ClockMoment<");
        out.append(rep);
        out.append("> {\n        ClockMoment::");
        out.append(variant.as_str());
        out.append("(rep)\n    }\n    const fn represents() -> &'static str {\n        \"");
        out.append(tag);
        out.append("\"\n    }\n}\n");

        let mut part = String::from_str("impl ClockLike for Clock");
        part.append(ty);
        part.append(" {\n    type MomentRep = ");
        part.append(rep);
        part.append(";\n    fn represents(&self) -> &str {\n        <Clock");
        part.append(ty);
        part.append(">::represents()\n    }\n    fn to_moment(rep: ");
        part.append(rep);
        part.append(") -> ClockMoment<");
        part.append(rep);
        part.append("> {\n        <Clock");
        part.append(ty);
        part.append(">::to_moment(rep)\n    }\n}\nimpl AddableClockLike<");
        part.append(rep);
        part.append("> for Clock");
        part.append(ty);
        part.append(" {}\n");
        out.append(part.as_str());
        Ok(out)
    }
}

} // verus!
