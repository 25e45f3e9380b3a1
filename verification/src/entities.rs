//! The records of a game session.

use vstd::prelude::*;
use crate::fixed::{product, saturate, sum, SCALE};
use crate::search::{first_where, lemma_first_where_absent, lemma_first_where_found};

verus! {

/// A point or an offset, in thousandths.
#[derive(Clone, Copy, Debug, PartialEq, Eq, Structural)]
pub struct Vec2D {
    pub x: i64,
    pub y: i64,
}

/// A deployable template, and the rectangle that shows it in the deck.
///
/// `pos`, `width` and `height` are fractions of the screen, in thousandths.
#[derive(Clone, Debug, PartialEq, Eq)]
pub struct Card {
    pub id: u32,
    pub name: String,
    pub cost: u32,
    pub pos: Vec2D,
    pub width: i64,
    pub height: i64,
    pub health: u32,
}

/// A unit on the battlefield. It advances along `y` at `velocity`
/// thousandths of a distance unit per second.
#[derive(Clone, Copy, Debug, PartialEq, Eq, Structural)]
pub struct Unit {
    pub id: u32,
    pub x: i64,
    pub y: i64,
    pub health: u32,
    pub velocity: i64,
}

/// A stationary defender. `attack_cooldown` is the time in milliseconds
/// until it may fire; it runs below zero while there is nothing to fire at.
#[derive(Clone, Copy, Debug, PartialEq, Eq, Structural)]
pub struct Tower {
    pub id: u32,
    pub x: i64,
    pub y: i64,
    pub damage: u32,
    pub attack_cooldown: i64,
}

/// A player and the elixir they have left to spend.
#[derive(Clone, Copy, Debug, PartialEq, Eq, Structural)]
pub struct Player {
    pub id: u32,
    pub elixir: u32,
}

impl Card {
    /// The left edge, as a fraction of the screen's width.
    pub open spec fn left_edge(&self) -> int {
        self.pos.x as int
    }

    /// The right edge; it saturates like every sum of positions.
    pub open spec fn right_edge(&self) -> int {
        saturate(self.pos.x + self.width) as int
    }

    /// The top edge, as a fraction of the screen's height.
    pub open spec fn top_edge(&self) -> int {
        self.pos.y as int
    }

    /// The bottom edge; it saturates like every sum of positions.
    pub open spec fn bottom_edge(&self) -> int {
        saturate(self.pos.y + self.height) as int
    }

    /// Whether the point `(x, y)` of a screen of `screen_w` by `screen_h`
    /// lies on the card: left, right and top edge included, bottom edge
    /// excluded. An edge at fraction `e` of a screen of size `s` lies at
    /// `e * s / SCALE`; both sides are multiplied by `SCALE`, so nothing is
    /// rounded.
    pub open spec fn covers(&self, x: int, y: int, screen_w: int, screen_h: int) -> bool {
        &&& x * SCALE >= self.left_edge() * screen_w
        &&& x * SCALE <= self.right_edge() * screen_w
        &&& y * SCALE >= self.top_edge() * screen_h
        &&& y * SCALE < self.bottom_edge() * screen_h
    }

    /// The left edge.
    pub fn left(&mut self) -> (r: i64)
        ensures
            *final(self) == *old(self),
            r == old(self).left_edge(),
    {
        self.pos.x
    }

    /// The right edge: the left edge plus the width, saturating.
    pub fn right(&mut self) -> (r: i64)
        ensures
            *final(self) == *old(self),
            r == old(self).right_edge(),
    {
        sum(self.pos.x, self.width)
    }

    /// The top edge.
    pub fn top(&mut self) -> (r: i64)
        ensures
            *final(self) == *old(self),
            r == old(self).top_edge(),
    {
        self.pos.y
    }

    /// The bottom edge: the top edge plus the height, saturating.
    pub fn bottom(&mut self) -> (r: i64)
        ensures
            *final(self) == *old(self),
            r == old(self).bottom_edge(),
    {
        sum(self.pos.y, self.height)
    }

    /// Whether the point `(x, y)` of a screen of `screen_w` by `screen_h`
    /// lies on the card.
    pub fn contains(&mut self, x: i64, y: i64, screen_w: i64, screen_h: i64) -> (r: bool)
        ensures
            *final(self) == *old(self),
            r == old(self).covers(x as int, y as int, screen_w as int, screen_h as int),
    {
        let px: i128 = product(x, SCALE);
        let py: i128 = product(y, SCALE);
        let left: i64 = self.left();
        let right: i64 = self.right();
        let top: i64 = self.top();
        let bottom: i64 = self.bottom();
        px >= product(left, screen_w) && px <= product(right, screen_w)
            && py >= product(top, screen_h) && py < product(bottom, screen_h)
    }
}

/// The index of the first card with the id `card_id`.
pub open spec fn card_index(cards: Seq<Card>, card_id: u32) -> Option<int> {
    first_where(cards, |c: Card| c.id == card_id)
}

/// The index of the first card with the id `card_id`.
pub(crate) fn find_card(cards: &Vec<Card>, card_id: u32) -> (r: Option<usize>)
    ensures
        match r {
            Some(i) => card_index(cards@, card_id) == Some(i as int),
            None => card_index(cards@, card_id) is None,
        },
{
    let n: usize = cards.len();
    let mut i: usize = 0;
    while i < n
        invariant
            i <= n,
            n == cards@.len(),
            forall|j: int| 0 <= j < i ==> (#[trigger] cards@[j]).id != card_id,
        decreases n - i,
    {
        if cards[i].id == card_id {
            proof {
                lemma_first_where_found(cards@, |c: Card| c.id == card_id, i as int);
            }
            return Some(i);
        }
        i += 1;
    }
    proof {
        lemma_first_where_absent(cards@, |c: Card| c.id == card_id);
    }
    None
}

} // verus!
