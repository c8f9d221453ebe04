//! Reading positions and surfaces from the codes that league data writes
//! them in. Codes are read without regard to case; what is no known code
//! reads as the default.

use crate::entities::{Position, Surface};
use std::str::FromStr;
use vstd::prelude::*;

verus! {

/// The lower-case form of a text, as `str::to_lowercase` gives it.
pub uninterp spec fn lowercase(text: Seq<char>) -> Seq<char>;

/// Calls `str::to_lowercase`. Trusted, not proved: the result is the
/// lower-case form of `text` by the case mapping of Unicode, and depends on
/// `text` alone. What that form is on a given text is not stated.
#[verifier::external_body]
fn lowercased(text: &str) -> (lower: String)
    ensures
        lower@ == lowercase(text@),
{
    text.to_lowercase()
}

/// The position that a lower-case code stands for.
pub open spec fn position_coded(code: Seq<char>) -> Position {
    if code == "av"@ {
        Position::Attacker
    } else if code == "vd"@ {
        Position::Defender
    } else if code == "mv"@ {
        Position::Midfield
    } else if code == "kp"@ {
        Position::Goalkeeper
    } else {
        Position::NotOnTheField
    }
}

/// The surface that a lower-case name stands for.
pub open spec fn surface_coded(code: Seq<char>) -> Surface {
    if code == "grass"@ {
        Surface::Grass
    } else if code == "kunstgras"@ {
        Surface::ArtificialGrass
    } else if code == "hybride"@ {
        Surface::Hybrid
    } else {
        Surface::Unknown
    }
}

/// Whether two texts are the same.
fn same_text(text: &str, other: &str) -> (same: bool)
    ensures
        same == (text@ == other@),
{
    text.to_owned() == other.to_owned()
}

/// The position that `code`, a code in lower case, stands for: `av` an
/// attacker, `vd` a defender, `mv` a midfielder, `kp` a goalkeeper, and
/// anything else a player who is not on the field.
pub fn position_of_code(code: &str) -> (position: Position)
    ensures
        position == position_coded(code@),
{
    if same_text(code, "av") {
        Position::Attacker
    } else if same_text(code, "vd") {
        Position::Defender
    } else if same_text(code, "mv") {
        Position::Midfield
    } else if same_text(code, "kp") {
        Position::Goalkeeper
    } else {
        Position::NotOnTheField
    }
}

/// The surface that `code`, a name in lower case, stands for: `grass`,
/// `kunstgras` for artificial grass, `hybride` for a hybrid, and anything
/// else an unknown surface.
pub fn surface_of_code(code: &str) -> (surface: Surface)
    ensures
        surface == surface_coded(code@),
{
    if same_text(code, "grass") {
        Surface::Grass
    } else if same_text(code, "kunstgras") {
        Surface::ArtificialGrass
    } else if same_text(code, "hybride") {
        Surface::Hybrid
    } else {
        Surface::Unknown
    }
}

/// Reads a position from its code, in any case.
pub fn read_position(text: &str) -> (position: Position)
    ensures
        position == position_coded(lowercase(text@)),
{
    let lower = lowercased(text);
    position_of_code(lower.as_str())
}

/// Reads a surface from its name, in any case.
pub fn read_surface(text: &str) -> (surface: Surface)
    ensures
        surface == surface_coded(lowercase(text@)),
{
    let lower = lowercased(text);
    surface_of_code(lower.as_str())
}

impl FromStr for Position {
    type Err = ();

    /// Reads a position from its code, in any case. Never fails.
    fn from_str(text: &str) -> (position: Result<Position, ()>)
        ensures
            position == Ok::<Position, ()>(position_coded(lowercase(text@))),
    {
        Ok(read_position(text))
    }
}

impl FromStr for Surface {
    type Err = ();

    /// Reads a surface from its name, in any case. Never fails.
    fn from_str(text: &str) -> (surface: Result<Surface, ()>)
        ensures
            surface == Ok::<Surface, ()>(surface_coded(lowercase(text@))),
    {
        Ok(read_surface(text))
    }
}

} // verus!
