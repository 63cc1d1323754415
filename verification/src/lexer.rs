//! The shape of a source line.
//!
//! A command is a word of letters, digits and underscores, then, after white
//! space, its arguments with commas between them, and a semicolon at the end
//! of the line. A comment starts with `#`. The two shapes are written as
//! patterns and matched by the `regex` crate; what is made of a match is
//! verified here.

use crate::error::{ErrorKind, Fault, FaultView};
use crate::text::{split_commas, split_on, views};
use vstd::prelude::*;
use vstd::string::*;

verus! {

/// The pattern of a command line. Group 1 is the command, group 3 its
/// arguments.
pub const COMMAND_PATTERN: &'static str = r"^(?<cmd>[a-zA-Z0-9_]+)([\s]+(?<args>.+))?;$";

/// The pattern of a comment line.
pub const COMMENT_PATTERN: &'static str = r"^(#+)(?<comment>.*)(#*)$";

/// The error of `regex::Regex::new`.
#[verifier::external_type_specification]
#[verifier::external_body]
pub struct ExRegexError(regex::Error);

/// Whether `regex::Regex::new` accepts the pattern.
pub uninterp spec fn pattern_compiles(pattern: Seq<char>) -> bool;

/// What `regex::Regex::captures` finds for the pattern in the text: nothing
/// where the pattern does not match, else the text of every capture group of
/// the leftmost match, group 0 being the whole match, with nothing for a
/// group that took no part in it.
pub uninterp spec fn pattern_captures(pattern: Seq<char>, text: Seq<char>) -> Option<
    Seq<Option<Seq<char>>>,
>;

/// The texts of the groups of a match.
pub open spec fn group_views(groups: Seq<Option<String>>) -> Seq<Option<Seq<char>>> {
    groups.map_values(
        |g: Option<String>|
            match g {
                Some(s) => Some(s@),
                None => None,
            },
    )
}

/// The texts of the groups of a match, if there is a match.
pub open spec fn captures_view(c: Option<Vec<Option<String>>>) -> Option<Seq<Option<Seq<char>>>> {
    match c {
        Some(groups) => Some(group_views(groups@)),
        None => None,
    }
}

/// `regex::Regex::new` on the pattern and then `regex::Regex::captures` on
/// the text, with every group of the match copied out through
/// `Captures::iter` and `Match::as_str`. Compiling and matching depend on
/// the pattern and the text alone; nothing is claimed of which patterns
/// compile or of what they match.
#[verifier::external_body]
fn captures(pattern: &str, text: &str) -> (r: Result<Option<Vec<Option<String>>>, regex::Error>)
    ensures
        r is Ok <==> pattern_compiles(pattern@),
        r matches Ok(c) ==> captures_view(c) == pattern_captures(pattern@, text@),
{
    let re = regex::Regex::new(pattern)?;
    Ok(re.captures(text).map(|c| c.iter().map(|m| m.map(|m| m.as_str().to_string())).collect()))
}

/// What a line of the source is.
#[derive(Debug)]
pub enum Line {
    /// A command with its arguments.
    Command { cmd: String, args: Vec<String> },
    /// A comment.
    Comment,
    /// Anything else; it is passed over.
    Other,
}

pub enum LineView {
    Command { cmd: Seq<char>, args: Seq<Seq<char>> },
    Comment,
    Other,
}

impl View for Line {
    type V = LineView;

    open spec fn view(&self) -> LineView {
        match self {
            Line::Command { cmd, args } => LineView::Command { cmd: cmd@, args: views(args@) },
            Line::Comment => LineView::Comment,
            Line::Other => LineView::Other,
        }
    }
}

/// The line that the groups of a match of the command pattern stand for:
/// group 1 is the command and group 3, cut at its commas, the arguments. A
/// command without group 3 has no arguments.
pub open spec fn command_line(groups: Seq<Option<Seq<char>>>) -> LineView {
    if groups.len() > 1 && groups[1] is Some {
        LineView::Command {
            cmd: groups[1]->0,
            args: if groups.len() > 3 && groups[3] is Some {
                split_on(groups[3]->0, ',')
            } else {
                Seq::<Seq<char>>::empty()
            },
        }
    } else {
        LineView::Other
    }
}

/// The fault of a pattern that the engine refuses.
pub open spec fn pattern_fault(pattern: Seq<char>) -> FaultView {
    FaultView { kind: ErrorKind::Pattern, message: "the line pattern was refused: "@ + pattern }
}

/// What a line of the source is, or the fault of a pattern that the engine
/// refuses. A line that matches the command pattern is a command; another
/// line is a comment where it matches the comment pattern.
pub open spec fn lexed(text: Seq<char>) -> Result<LineView, FaultView> {
    if !pattern_compiles(COMMAND_PATTERN@) {
        Err(pattern_fault(COMMAND_PATTERN@))
    } else {
        match pattern_captures(COMMAND_PATTERN@, text) {
            Some(groups) => Ok(command_line(groups)),
            None => if !pattern_compiles(COMMENT_PATTERN@) {
                Err(pattern_fault(COMMENT_PATTERN@))
            } else if pattern_captures(COMMENT_PATTERN@, text) is Some {
                Ok(LineView::Comment)
            } else {
                Ok(LineView::Other)
            },
        }
    }
}

/// Makes a line of the groups of a match of the command pattern.
pub fn line_of_groups(groups: &Vec<Option<String>>) -> (line: Line)
    ensures
        line@ == command_line(group_views(groups@)),
{
    if groups.len() > 1 {
        if let Some(cmd) = &groups[1] {
            assert(group_views(groups@)[1] == Some(cmd@));
            let args = if groups.len() > 3 {
                match &groups[3] {
                    Some(args) => {
                        assert(group_views(groups@)[3] == Some(args@));
                        split_commas(args.as_str())
                    },
                    None => {
                        assert(group_views(groups@)[3] is None);
                        Vec::new()
                    },
                }
            } else {
                Vec::new()
            };
            assert(views(args@) =~= command_line(group_views(groups@))->args);
            return Line::Command { cmd: cmd.clone(), args };
        }
        assert(group_views(groups@)[1] is None);
    }
    Line::Other
}

/// Matches a pattern against a text and copies the groups of the match out.
/// A pattern that the engine refuses is a fault of the library's own.
pub fn groups_of(pattern: &str, text: &str) -> (r: Result<Option<Vec<Option<String>>>, Fault>)
    ensures
        match r {
            Ok(c) => pattern_compiles(pattern@) && captures_view(c) == pattern_captures(
                pattern@,
                text@,
            ),
            Err(f) => !pattern_compiles(pattern@) && f@ == pattern_fault(pattern@),
        },
{
    match captures(pattern, text) {
        Ok(c) => Ok(c),
        Err(_) => Err(
            Fault::about(ErrorKind::Pattern, "the line pattern was refused: ", pattern),
        ),
    }
}

/// Reads a line of the source.
pub fn read_line(text: &str) -> (r: Result<Line, Fault>)
    ensures
        match r {
            Ok(line) => lexed(text@) == Ok::<LineView, FaultView>(line@),
            Err(f) => lexed(text@) == Err::<LineView, FaultView>(f@),
        },
{
    match groups_of(COMMAND_PATTERN, text)? {
        Some(groups) => Ok(line_of_groups(&groups)),
        None => match groups_of(COMMENT_PATTERN, text)? {
            Some(_) => Ok(Line::Comment),
            None => Ok(Line::Other),
        },
    }
}

} // verus!
