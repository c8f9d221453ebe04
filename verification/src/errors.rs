//! What can go wrong: faults of the configuration that a match is played on.

use crate::entities::Position;
use vstd::prelude::*;

verus! {

/// A roster has no player of the role that a selection asks for.
#[derive(PartialEq, Eq, Structural, Clone, Copy, Debug)]
pub struct SelectionError {
    pub team: u32,
    pub role: Position,
}

/// Why a match could not be played to its end.
#[derive(PartialEq, Eq, Structural, Clone, Copy, Debug)]
pub enum SimulationError {
    /// The standings table has no entry for `team`.
    MissingStanding { team: u32 },
    /// The player `player` of `team` has a quality above the highest allowed.
    QualityOutOfRange { team: u32, player: u32 },
    /// The roster of `team` lists the identity `player` more than once.
    DuplicatePlayer { team: u32, player: u32 },
    /// In minute `minute`, `team` scored and has no player of `role` to credit.
    NoEligiblePlayer { team: u32, role: Position, minute: u32 },
}

/// Why no squads could be built: the pool has too few players of `role`.
#[derive(PartialEq, Eq, Structural, Clone, Copy, Debug)]
pub struct SquadError {
    pub role: Position,
}

} // verus!
