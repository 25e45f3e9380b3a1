//! The elixir gauge of the deck.

use vstd::prelude::*;

verus! {

/// The number of segments that the gauge is drawn with.
pub const SEGMENTS: u32 = 10;

/// The level that a new gauge shows.
pub const INITIAL_LEVEL: u32 = 7;

/// A gauge of `SEGMENTS` segments, filled from the first up to its level.
#[derive(Debug, Default)]
pub struct ElixirBar {
    elixir: u32,
}

impl View for ElixirBar {
    type V = u32;

    closed spec fn view(&self) -> u32 {
        self.elixir
    }
}

impl ElixirBar {
    /// A gauge that shows 7.
    pub fn new() -> (bar: ElixirBar)
        ensures
            bar@ == INITIAL_LEVEL,
    {
        ElixirBar { elixir: INITIAL_LEVEL }
    }

    /// The level that the gauge shows.
    pub fn elixir(&self) -> (level: u32)
        ensures
            level == self@,
    {
        self.elixir
    }

    /// Whether segment `segment`, counted from zero, is drawn filled: those
    /// below the level are.
    pub fn is_filled(&self, segment: u32) -> (filled: bool)
        ensures
            filled == (segment < self@),
    {
        segment < self.elixir
    }
}

} // verus!
