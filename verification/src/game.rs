//! The state of a session and the two operations that change it.

use vstd::prelude::*;
use crate::entities::{card_index, find_card, Card, Player, Tower, Unit};
use crate::fixed::{narrow, travel};
use crate::rules::{
    advanced, alive, all_advanced, engaged, first_target, fought, in_range, survivors,
    tower_after, towers_after, ENGAGEMENT_RADIUS, REFIRE_INTERVAL,
};
use crate::search::{lemma_first_where_absent, lemma_first_where_found};

verus! {

/// The id of the player that `GameState::new` creates.
pub const FIRST_PLAYER_ID: u32 = 1;

/// The elixir that a session starts with.
pub const STARTING_ELIXIR: u32 = 10;

/// The speed of a spawned unit: 100 distance units per second.
pub const SPAWN_VELOCITY: i64 = 100_000;

/// One session: the single source of truth for players, units, towers and
/// cards. Only `players[0]` ever pays.
#[derive(Debug, Default)]
pub struct GameState {
    pub players: Vec<Player>,
    pub units: Vec<Unit>,
    pub towers: Vec<Tower>,
    pub cards: Vec<Card>,
}

/// A session as four sequences.
pub struct GameView {
    pub players: Seq<Player>,
    pub units: Seq<Unit>,
    pub towers: Seq<Tower>,
    pub cards: Seq<Card>,
}

impl View for GameState {
    type V = GameView;

    open spec fn view(&self) -> GameView {
        GameView {
            players: self.players@,
            units: self.units@,
            towers: self.towers@,
            cards: self.cards@,
        }
    }
}

impl GameView {
    /// The session as it starts: one player, nothing else.
    pub open spec fn initial() -> GameView {
        GameView {
            players: seq![Player { id: FIRST_PLAYER_ID, elixir: STARTING_ELIXIR }],
            units: Seq::empty(),
            towers: Seq::empty(),
            cards: Seq::empty(),
        }
    }

    /// Whether a spawn from `card_id` goes through: the card is in the set
    /// and there is a first player who can pay for it.
    pub open spec fn can_spawn(self, card_id: u32) -> bool {
        &&& card_index(self.cards, card_id) is Some
        &&& self.players.len() > 0
        &&& self.players[0].elixir >= self.cards[card_index(self.cards, card_id)->0].cost
    }

    /// The session after a spawn from `card_id` at `(x, y)`. Where the spawn
    /// goes through, the first player pays the card's cost and a unit with
    /// the card's health is appended, numbered by its place in the sequence.
    /// Otherwise nothing changes.
    pub open spec fn spawned(self, card_id: u32, x: i64, y: i64) -> GameView {
        if self.can_spawn(card_id) {
            let card = self.cards[card_index(self.cards, card_id)->0];
            let payer = self.players[0];
            GameView {
                players: self.players.update(
                    0,
                    Player { elixir: (payer.elixir - card.cost) as u32, ..payer },
                ),
                units: self.units.push(
                    Unit {
                        id: (self.units.len() + 1) as u32,
                        x: x,
                        y: y,
                        health: card.health,
                        velocity: SPAWN_VELOCITY,
                    },
                ),
                ..self
            }
        } else {
            self
        }
    }

    /// The session after a tick of `dt` milliseconds: the units move, then
    /// the towers take their turns in order, then the dead are removed.
    pub open spec fn ticked(self, dt: u64) -> GameView {
        let moved = all_advanced(self.units, dt);
        GameView {
            units: survivors(fought(moved, self.towers, dt, self.towers.len())),
            towers: towers_after(moved, self.towers, dt),
            ..self
        }
    }
}

/// Moves every unit by `dt` milliseconds.
fn advance_units(units: &mut Vec<Unit>, dt: u64)
    ensures
        final(units)@ == all_advanced(old(units)@, dt),
{
    let n: usize = units.len();
    let mut i: usize = 0;
    while i < n
        invariant
            i <= n,
            units@.len() == n,
            old(units)@.len() == n,
            forall|j: int| 0 <= j < i ==> units@[j] == advanced(old(units)@[j], dt),
            forall|j: int| i <= j < n ==> units@[j] == old(units)@[j],
        decreases n - i,
    {
        let u: Unit = units[i];
        let step: i128 = travel(u.velocity, dt);
        units[i].y = narrow(u.y as i128 + step);
        i += 1;
    }
}

/// Whether the unit is within the tower's engagement radius.
fn within_range(u: Unit, t: Tower) -> (r: bool)
    ensures
        r == in_range(u, t),
{
    let dx: i128 = u.x as i128 - t.x as i128;
    let dy: i128 = u.y as i128 - t.y as i128;
    let radius: i128 = ENGAGEMENT_RADIUS as i128;
    proof {
        lemma_square_bounds(dx as int, dy as int, radius as int);
    }
    if dx >= radius || dx <= -radius || dy >= radius || dy <= -radius {
        false
    } else {
        dx * dx + dy * dy < radius * radius
    }
}

/// Squares are not negative, the square of a number as large as `r` is as
/// large as the square of `r`, and that of a smaller one is smaller.
proof fn lemma_square_bounds(dx: int, dy: int, r: int)
    by (nonlinear_arith)
    requires
        r > 0,
    ensures
        dx * dx >= 0,
        dy * dy >= 0,
        dx >= r || dx <= -r ==> dx * dx >= r * r,
        dy >= r || dy <= -r ==> dy * dy >= r * r,
        -r < dx < r ==> dx * dx < r * r,
        -r < dy < r ==> dy * dy < r * r,
{
}

/// The index of the first unit within the tower's range.
fn find_target(units: &Vec<Unit>, t: Tower) -> (r: Option<usize>)
    ensures
        match r {
            Some(i) => first_target(units@, t) == Some(i as int),
            None => first_target(units@, t) is None,
        },
{
    let n: usize = units.len();
    let mut i: usize = 0;
    while i < n
        invariant
            i <= n,
            n == units@.len(),
            forall|j: int| 0 <= j < i ==> !in_range(#[trigger] units@[j], t),
        decreases n - i,
    {
        if within_range(units[i], t) {
            proof {
                lemma_first_where_found(units@, |u: Unit| in_range(u, t), i as int);
            }
            return Some(i);
        }
        i += 1;
    }
    proof {
        lemma_first_where_absent(units@, |u: Unit| in_range(u, t));
    }
    None
}

/// One tower's turn; returns the tower as its turn leaves it.
fn engage(units: &mut Vec<Unit>, t: Tower, dt: u64) -> (r: Tower)
    ensures
        (final(units)@, r) == engaged(old(units)@, t, dt),
{
    let cooldown: i64 = narrow(t.attack_cooldown as i128 - dt as i128);
    let mut after: Tower = t;
    after.attack_cooldown = cooldown;
    if cooldown <= 0 {
        match find_target(units, t) {
            Some(i) => {
                let health: u32 = units[i].health;
                units[i].health = health.saturating_sub(t.damage);
                after.attack_cooldown = REFIRE_INTERVAL;
            },
            None => {},
        }
    }
    after
}

/// Removes the units that have no health left.
fn remove_dead(units: &mut Vec<Unit>)
    ensures
        final(units)@ == survivors(old(units)@),
{
    let n: usize = units.len();
    let mut kept: Vec<Unit> = Vec::new();
    let mut i: usize = 0;
    while i < n
        invariant
            i <= n,
            n == units@.len(),
            units@ == old(units)@,
            kept@ == survivors(units@.take(i as int)),
        decreases n - i,
    {
        let u: Unit = units[i];
        proof {
            assert(units@.take(i + 1) == units@.take(i as int).push(u));
            units@.take(i as int).lemma_filter_push(u, alive());
        }
        if u.health > 0 {
            kept.push(u);
        }
        i += 1;
    }
    assert(units@.take(n as int) == units@);
    *units = kept;
}

impl GameState {
    /// A new session: one player with id 1 and 10 elixir; no units, towers
    /// or cards yet.
    pub fn new() -> (state: GameState)
        ensures
            state@ == GameView::initial(),
    {
        let mut players: Vec<Player> = Vec::new();
        players.push(Player { id: FIRST_PLAYER_ID, elixir: STARTING_ELIXIR });
        GameState { players, units: Vec::new(), towers: Vec::new(), cards: Vec::new() }
    }

    /// Deploys a unit from the first card with the id `card_id` at
    /// `(x, y)`: the first player pays the card's cost, and a unit with the
    /// card's health and the speed `SPAWN_VELOCITY` joins the end of the
    /// units, numbered one more than there were. An unknown card and a cost
    /// that the first player cannot pay both leave the session as it is.
    ///
    /// The new unit's number must fit its `u32`.
    pub fn spawn_unit(&mut self, card_id: u32, x: i64, y: i64)
        requires
            old(self).units.len() < u32::MAX,
        ensures
            final(self)@ == old(self)@.spawned(card_id, x, y),
    {
        match find_card(&self.cards, card_id) {
            Some(i) => {
                let cost: u32 = self.cards[i].cost;
                let health: u32 = self.cards[i].health;
                if self.players.len() > 0 && self.players[0].elixir >= cost {
                    let left: u32 = self.players[0].elixir - cost;
                    self.players[0].elixir = left;
                    let id: u32 = self.units.len() as u32 + 1;
                    self.units.push(Unit { id, x, y, health, velocity: SPAWN_VELOCITY });
                }
            },
            None => {},
        }
    }

    /// Advances the session by `dt` milliseconds, in three passes. Every
    /// unit moves along `y` by its velocity times `dt`. Then every tower, in
    /// storage order, cools down by `dt` and, if that brings its cooldown to
    /// zero or below, strikes the first unit in storage order that is less
    /// than `ENGAGEMENT_RADIUS` away; a strike takes the tower's damage from
    /// the unit's health, down to zero at most, and sets the cooldown to
    /// `REFIRE_INTERVAL`. Last, the units without health are removed.
    /// Players and cards stay as they are.
    pub fn update(&mut self, dt: u64)
        ensures
            final(self)@ == old(self)@.ticked(dt),
    {
        advance_units(&mut self.units, dt);
        let ghost moved = self.units@;
        let ghost before = self.towers@;
        let n: usize = self.towers.len();
        let mut k: usize = 0;
        while k < n
            invariant
                k <= n,
                n == before.len(),
                self.towers@.len() == n,
                self.players@ == old(self).players@,
                self.cards@ == old(self).cards@,
                self.units@ == fought(moved, before, dt, k as nat),
                forall|j: int| 0 <= j < k ==> self.towers@[j] == tower_after(moved, before, dt, j),
                forall|j: int| k <= j < n ==> self.towers@[j] == before[j],
            decreases n - k,
        {
            let t: Tower = self.towers[k];
            let after: Tower = engage(&mut self.units, t, dt);
            self.towers[k] = after;
            k += 1;
        }
        remove_dead(&mut self.units);
        assert(self.towers@ == towers_after(moved, before, dt));
    }
}

} // verus!
