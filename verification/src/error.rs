use vstd::prelude::*;

verus! {

/// Why the engine refused a ply.
#[derive(Clone, Copy, Debug, PartialEq, Eq, Structural)]
pub enum GameError {
    /// The target position of a placement is already occupied.
    InvalidPlacement,
    /// A move whose origin is not owned by the mover, whose destination is
    /// occupied, or whose two ends are not adjacent.
    IllegalMove,
    /// A capture whose target is not an opponent piece, or is protected by a
    /// standing mill while unprotected pieces exist.
    InvalidCapture,
    /// A position id that is not one of the 24 positions of the board.
    UnknownPosition,
    /// The ply's kind or player is not the one the state expects next.
    PhaseMismatch,
}

} // verus!
