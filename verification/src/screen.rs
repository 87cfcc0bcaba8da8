//! The game screen, as far as the rules know it.

use vstd::prelude::*;

verus! {

/// What the game screen can ask for.
#[derive(Debug, Copy, Clone, Eq, PartialEq, Structural)]
pub enum Message {
    Test,
}

} // verus!
