//! The identifier mint: from the names that a source gives to the names that
//! the emitted code carries.
//!
//! Types and enum variants are written in Pascal case, fields and methods in
//! snake case. The prefixes of the emitted names are put in front by the
//! emitters, never by the mint.

use crate::error::{ErrorKind, Fault, FaultView};
use crate::text::{
    all_ident_chars, bare_identifier, identifier, is_bare_identifier, is_identifier,
    only_ident_chars,
};
use vstd::prelude::*;
use vstd::string::*;

verus! {

/// The two forms that the mint gives to a name.
#[derive(Clone, Copy, Debug, PartialEq, Eq, Structural)]
pub enum Style {
    /// `LikeThis`, for types and enum variants.
    Pascal,
    /// `like_this`, for fields and methods.
    Snake,
}

/// What `convert_case::Casing::to_case` returns for a text and the case of
/// the style: the text in Pascal case or in snake case, as that crate
/// writes it.
pub uninterp spec fn cased(s: Seq<char>, style: Style) -> Seq<char>;

/// `convert_case::Casing::to_case` with `Case::Pascal` or `Case::Snake`. The
/// conversion depends on the text and the case alone and returns for every
/// text; nothing else is claimed of its result.
#[verifier::external_body]
fn to_case(s: &str, style: Style) -> (r: String)
    ensures
        r@ == cased(s@, style),
{
    match style {
        Style::Pascal => convert_case::Casing::to_case(&s, convert_case::Case::Pascal),
        Style::Snake => convert_case::Casing::to_case(&s, convert_case::Case::Snake),
    }
}

/// What is reported for a name that is no identifier.
pub open spec fn not_an_identifier(name: Seq<char>) -> FaultView {
    FaultView { kind: ErrorKind::MalformedArgs, message: "not an identifier: "@ + name }
}

/// What is reported for a name whose minted form cannot stand in the emitted
/// code.
pub open spec fn not_mintable(name: Seq<char>) -> FaultView {
    FaultView { kind: ErrorKind::MalformedArgs, message: "no usable name can be made of: "@ + name }
}

/// Why a name cannot be minted to go behind a prefix, if it cannot: it is no
/// identifier, or its minted form holds something else than letters, digits
/// and underscores.
pub open spec fn mint_fault(name: Seq<char>, style: Style) -> Option<FaultView> {
    if !is_identifier(name) {
        Some(not_an_identifier(name))
    } else if !all_ident_chars(cased(name, style)) {
        Some(not_mintable(name))
    } else {
        None
    }
}

/// Why a name cannot be minted to stand alone, if it cannot: it is no
/// identifier, or its minted form is none that may stand alone.
pub open spec fn bare_mint_fault(name: Seq<char>, style: Style) -> Option<FaultView> {
    if !is_identifier(name) {
        Some(not_an_identifier(name))
    } else if !is_bare_identifier(cased(name, style)) {
        Some(not_mintable(name))
    } else {
        None
    }
}

fn refuse_identifier(name: &str) -> (f: Fault)
    ensures
        f@ == not_an_identifier(name@),
{
    let mut message = String::from_str("not an identifier: ");
    message.append(name);
    Fault::new(ErrorKind::MalformedArgs, message)
}

fn refuse_minted(name: &str) -> (f: Fault)
    ensures
        f@ == not_mintable(name@),
{
    let mut message = String::from_str("no usable name can be made of: ");
    message.append(name);
    Fault::new(ErrorKind::MalformedArgs, message)
}

/// Tests that a text is an identifier.
pub fn check_identifier(name: &str) -> (r: Result<(), Fault>)
    ensures
        match r {
            Ok(_) => is_identifier(name@),
            Err(f) => !is_identifier(name@) && f@ == not_an_identifier(name@),
        },
{
    if identifier(name) {
        Ok(())
    } else {
        Err(refuse_identifier(name))
    }
}

/// Mints a name that the caller puts a prefix in front of.
pub fn mint(name: &str, style: Style) -> (r: Result<String, Fault>)
    ensures
        match r {
            Ok(minted) => mint_fault(name@, style) is None && minted@ == cased(name@, style),
            Err(f) => mint_fault(name@, style) == Some(f@),
        },
{
    if !identifier(name) {
        return Err(refuse_identifier(name));
    }
    let minted = to_case(name, style);
    if !only_ident_chars(minted.as_str()) {
        return Err(refuse_minted(name));
    }
    Ok(minted)
}

/// Mints a name that stands alone in the emitted code.
pub fn mint_bare(name: &str, style: Style) -> (r: Result<String, Fault>)
    ensures
        match r {
            Ok(minted) => bare_mint_fault(name@, style) is None && minted@ == cased(name@, style),
            Err(f) => bare_mint_fault(name@, style) == Some(f@),
        },
{
    if !identifier(name) {
        return Err(refuse_identifier(name));
    }
    let minted = to_case(name, style);
    if !bare_identifier(minted.as_str()) {
        return Err(refuse_minted(name));
    }
    Ok(minted)
}

} // verus!
