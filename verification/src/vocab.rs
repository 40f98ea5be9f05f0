//! Fixed vocabulary tables: the legal command verbs with the intent each
//! one expresses, and the eight compass-direction words.  The tables are
//! pure lookups with no state; matching is exact, so callers lowercase
//! direction and object words first (verbs are matched as typed).

use vstd::prelude::*;
use crate::text::str_eq;

verus! {

/// The semantic category of a command verb.
#[allow(non_camel_case_types)]
#[derive(Clone, Copy, Debug, PartialEq, Eq, Structural)]
pub enum Intent {
    EXAMINE,
    INTERACT,
    INVENTORY,
    LIST_INVENTORY,
    MOVEMENT,
    USE,
    UNKNOWN,
}

/// A compass direction an exit can point to.
#[derive(Clone, Copy, Debug, PartialEq, Eq, Structural)]
pub enum Direction {
    N,
    S,
    E,
    W,
    NE,
    NW,
    SE,
    SW,
}

/// The intent expressed by a verb; `UNKNOWN` for any word outside the
/// fixed verb set.
pub open spec fn intent_of(w: Seq<char>) -> Intent {
    if w == "examine"@ || w == "look"@ {
        Intent::EXAMINE
    } else if w == "interact"@ || w == "push"@ || w == "pull"@ {
        Intent::INTERACT
    } else if w == "grab"@ || w == "take"@ {
        Intent::INVENTORY
    } else if w == "list"@ {
        Intent::LIST_INVENTORY
    } else if w == "go"@ || w == "move"@ || w == "walk"@ {
        Intent::MOVEMENT
    } else if w == "use"@ {
        Intent::USE
    } else {
        Intent::UNKNOWN
    }
}

/// A word is a legal command verb exactly when it expresses an intent,
/// so every legal verb maps to a non-`UNKNOWN` intent.
pub open spec fn is_legal_verb(w: Seq<char>) -> bool {
    !(intent_of(w) is UNKNOWN)
}

/// The direction named by a word, if any.
pub open spec fn dir_of(w: Seq<char>) -> Option<Direction> {
    if w == "north"@ {
        Some(Direction::N)
    } else if w == "south"@ {
        Some(Direction::S)
    } else if w == "east"@ {
        Some(Direction::E)
    } else if w == "west"@ {
        Some(Direction::W)
    } else if w == "northeast"@ {
        Some(Direction::NE)
    } else if w == "northwest"@ {
        Some(Direction::NW)
    } else if w == "southeast"@ {
        Some(Direction::SE)
    } else if w == "southwest"@ {
        Some(Direction::SW)
    } else {
        None
    }
}

/// Maps a verb to the intent it expresses, totally: unknown words map to
/// `UNKNOWN`.
pub fn determine_intent(w: &str) -> (r: Intent)
    ensures
        r == intent_of(w@),
{
    if str_eq(w, "examine") || str_eq(w, "look") {
        Intent::EXAMINE
    } else if str_eq(w, "interact") || str_eq(w, "push") || str_eq(w, "pull") {
        Intent::INTERACT
    } else if str_eq(w, "grab") || str_eq(w, "take") {
        Intent::INVENTORY
    } else if str_eq(w, "list") {
        Intent::LIST_INVENTORY
    } else if str_eq(w, "go") || str_eq(w, "move") || str_eq(w, "walk") {
        Intent::MOVEMENT
    } else if str_eq(w, "use") {
        Intent::USE
    } else {
        Intent::UNKNOWN
    }
}

/// Tests membership in the fixed verb set.
pub fn is_legal_command(w: &str) -> (r: bool)
    ensures
        r == is_legal_verb(w@),
{
    match determine_intent(w) {
        Intent::UNKNOWN => false,
        _ => true,
    }
}

/// Maps a direction word to its direction, `None` for any other word.
pub fn text_to_direction(w: &str) -> (r: Option<Direction>)
    ensures
        r == dir_of(w@),
{
    if str_eq(w, "north") {
        Some(Direction::N)
    } else if str_eq(w, "south") {
        Some(Direction::S)
    } else if str_eq(w, "east") {
        Some(Direction::E)
    } else if str_eq(w, "west") {
        Some(Direction::W)
    } else if str_eq(w, "northeast") {
        Some(Direction::NE)
    } else if str_eq(w, "northwest") {
        Some(Direction::NW)
    } else if str_eq(w, "southeast") {
        Some(Direction::SE)
    } else if str_eq(w, "southwest") {
        Some(Direction::SW)
    } else {
        None
    }
}

/// Tests whether a word names a compass direction.
pub fn is_direction(w: &str) -> (r: bool)
    ensures
        r == dir_of(w@).is_some(),
{
    text_to_direction(w).is_some()
}

} // verus!
