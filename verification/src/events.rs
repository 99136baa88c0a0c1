//! Domain events describing state changes of a match, for delivery to an
//! event sink by the hosting layer. Delivery is fire-and-forget from the
//! rules engine's point of view.

use vstd::prelude::*;

verus! {

/// One notification about a match, carrying the match identifier and the
/// relevant coordinates or outcome.
#[derive(Debug)]
pub enum Event<'a> {
    /// A new match was created.
    MatchCreated { id: &'a str },
    /// A player placed their ships.
    ShipsPlaced { id: &'a str },
    /// A player proposed a shot.
    ShotProposed { id: &'a str, x: u8, y: u8 },
    /// A shot was resolved, with its outcome label.
    ShotFired { id: &'a str, x: u8, y: u8, result: &'a str },
    /// A winner was determined.
    Winner { id: &'a str },
    /// The match concluded.
    MatchEnded { id: &'a str },
}

} // verus!
