//! A seeded soccer match simulation engine.
//!
//! A match is ninety one-minute steps of a state machine over one integer,
//! the field position. Each minute the strengths of the two sides are drawn
//! anew; play moves the ball by the difference of their efforts, and a ball
//! beyond a goal line is a shot that goes in or is thrown back.
//!
//! Every factor is a fixed-point number in thousandths and every draw comes
//! from one seeded generator, so that every result is an exact integer and a
//! seed determines a match completely.
//!
//! - [`entities`]: players, teams, rosters, goals and matches.
//! - [`permille`]: scaling by factors in thousandths.
//! - [`random`]: the seeded source of all draws.
//! - [`sectors`]: what a roster is worth, sector by sector.
//! - [`selector`]: who is credited with a goal.
//! - [`pitch`]: the phases of the field and the rules of play.
//! - [`configuration`]: the standings table and the faults of a roster.
//! - [`engine`]: the minute, step by step.
//! - [`simulation`]: fixtures, matches and leagues.
//! - [`squads`]: building the rosters from a pool of players.
//! - [`scouting`] and [`codes`]: reading players from the pages of a table.

pub mod codes;
pub mod configuration;
pub mod engine;
pub mod entities;
pub mod errors;
pub mod permille;
pub mod pitch;
pub mod random;
pub mod scouting;
pub mod sectors;
pub mod selector;
pub mod simulation;
pub mod squads;
