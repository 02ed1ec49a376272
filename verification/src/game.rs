use crate::blocks::BlockRegistery;
use vstd::prelude::*;

verus! {

/// The settings of a game.
#[derive(Debug, Clone, Copy, PartialEq, Eq, Structural)]
pub struct GameSettings {
    /// How many chunks away from the viewer's chunk, in each horizontal
    /// direction, sections are kept on show.
    pub chunk_render_distance: usize,
}

/// What a world needs to know of the game it belongs to.
#[derive(Debug)]
pub struct Game {
    pub block_registery: BlockRegistery,
    pub game_settings: GameSettings,
}

} // verus!
