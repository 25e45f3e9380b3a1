//! The rules of one tick, as functions on sequences of records.
//!
//! A tick has three passes, in this order: every unit moves; every tower, in
//! storage order, cools down and may strike once; the dead are removed.

use vstd::prelude::*;
use crate::entities::{Tower, Unit};
use crate::fixed::{saturate, scaled_product};
use crate::search::first_where;

verus! {

/// The distance within which a tower can strike: 100 distance units.
pub const ENGAGEMENT_RADIUS: i64 = 100_000;

/// The cooldown a tower is given when it strikes: one second.
pub const REFIRE_INTERVAL: i64 = 1000;

/// The unit after `dt` milliseconds of movement: `y` grows by
/// `velocity * dt`, rounded toward zero and saturating; nothing else changes.
pub open spec fn advanced(u: Unit, dt: u64) -> Unit {
    Unit { y: saturate(u.y + scaled_product(u.velocity as int, dt as int)), ..u }
}

/// Every unit after `dt` milliseconds of movement.
pub open spec fn all_advanced(units: Seq<Unit>, dt: u64) -> Seq<Unit> {
    Seq::new(units.len(), |i: int| advanced(units[i], dt))
}

/// A cooldown after `dt` milliseconds. It may go below zero and saturates.
pub open spec fn cooled(cooldown: i64, dt: u64) -> i64 {
    saturate(cooldown - dt)
}

/// Whether the Euclidean distance between unit and tower is strictly less
/// than the engagement radius, stated on the squares.
pub open spec fn in_range(u: Unit, t: Tower) -> bool {
    (u.x - t.x) * (u.x - t.x) + (u.y - t.y) * (u.y - t.y) < ENGAGEMENT_RADIUS
        * ENGAGEMENT_RADIUS
}

/// The unit after a strike of `damage`: its health drops, but not below zero.
pub open spec fn struck(u: Unit, damage: u32) -> Unit {
    Unit {
        health: if u.health >= damage {
            (u.health - damage) as u32
        } else {
            0
        },
        ..u
    }
}

/// The index of the unit that `t` strikes: the first one in range, whatever
/// its health.
pub open spec fn first_target(units: Seq<Unit>, t: Tower) -> Option<int> {
    first_where(units, |u: Unit| in_range(u, t))
}

/// The tower's turn. Its cooldown runs down by `dt`. If that leaves it at
/// zero or below and a unit is in range, the first such unit is struck and
/// the cooldown becomes `REFIRE_INTERVAL`; otherwise the units stay as they
/// are and the cooldown keeps its lowered value.
pub open spec fn engaged(units: Seq<Unit>, t: Tower, dt: u64) -> (Seq<Unit>, Tower) {
    let cooldown = cooled(t.attack_cooldown, dt);
    if cooldown <= 0 && first_target(units, t) is Some {
        let i = first_target(units, t)->0;
        (
            units.update(i, struck(units[i], t.damage)),
            Tower { attack_cooldown: REFIRE_INTERVAL, ..t },
        )
    } else {
        (units, Tower { attack_cooldown: cooldown, ..t })
    }
}

/// The units after the first `n` towers have had their turn.
pub open spec fn fought(units: Seq<Unit>, towers: Seq<Tower>, dt: u64, n: nat) -> Seq<Unit>
    decreases n,
{
    if n == 0 {
        units
    } else {
        engaged(fought(units, towers, dt, (n - 1) as nat), towers[n - 1], dt).0
    }
}

/// Tower `k` after its turn, which it takes on the units that the towers
/// before it have left.
pub open spec fn tower_after(units: Seq<Unit>, towers: Seq<Tower>, dt: u64, k: int) -> Tower {
    engaged(fought(units, towers, dt, k as nat), towers[k], dt).1
}

/// Every tower after its turn.
pub open spec fn towers_after(units: Seq<Unit>, towers: Seq<Tower>, dt: u64) -> Seq<Tower> {
    Seq::new(towers.len(), |k: int| tower_after(units, towers, dt, k))
}

/// A unit stays on the battlefield while it has health left.
pub open spec fn alive() -> spec_fn(Unit) -> bool {
    |u: Unit| u.health > 0
}

/// The units that are alive, in their order.
pub open spec fn survivors(units: Seq<Unit>) -> Seq<Unit> {
    units.filter(alive())
}

} // verus!
