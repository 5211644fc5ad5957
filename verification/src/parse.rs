//! Parsing shortcut descriptors with the hotkey facility's parser.

use vstd::prelude::*;

use crate::errors::ShortcutError;

verus! {

/// What the hotkey facility's parser makes of a descriptor: the
/// identifier the facility files the key combination under, or the
/// parser's error message.
pub uninterp spec fn spec_parse_shortcut(descriptor: Seq<char>) -> Result<u32, Seq<char>>;

/// A key combination the facility's parser accepted, named by the
/// identifier the facility itself files it under. Descriptors of the
/// same combination carry the same identifier.
#[derive(Clone, Copy, Debug, PartialEq, Eq, Structural)]
pub struct ParsedShortcut {
    /// The facility's identifier for the combination.
    pub id: u32,
}

/// Relies on `global_hotkey::hotkey::HotKey`'s `FromStr` impl, whose
/// result depends on the descriptor's characters alone, and on
/// `HotKey::id`, which reads the identifier the parser computed from
/// the combination's modifiers and key code.
#[verifier::external_body]
fn parse_with_facility(descriptor: &str) -> (r: Result<u32, String>)
    ensures
        match spec_parse_shortcut(descriptor@) {
            Ok(id) => r matches Ok(i) && i == id,
            Err(msg) => r matches Err(m) && m@ == msg,
        },
{
    match <global_hotkey::hotkey::HotKey as core::str::FromStr>::from_str(descriptor) {
        Ok(hotkey) => Ok(hotkey.id()),
        Err(e) => Err(format!("{}", e)),
    }
}

/// Parses a textual descriptor with the facility's parser. Returns the
/// accepted combination, or `ShortcutError::Parse` carrying the
/// parser's message exactly when the parser rejects the descriptor.
pub fn parse_shortcut(descriptor: &str) -> (r: Result<ParsedShortcut, ShortcutError>)
    ensures
        match spec_parse_shortcut(descriptor@) {
            Ok(id) => r matches Ok(p) && p.id == id,
            Err(msg) => r matches Err(ShortcutError::Parse(m)) && m@ == msg,
        },
{
    match parse_with_facility(descriptor) {
        Ok(id) => Ok(ParsedShortcut { id }),
        Err(m) => Err(ShortcutError::Parse(m)),
    }
}

} // verus!
