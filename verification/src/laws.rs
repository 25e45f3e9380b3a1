//! What holds of every session, proved from the rules.

use vstd::prelude::*;
use crate::deck::{ButtonState, DeckView, DEPLOY_VELOCITY};
use crate::entities::{card_index, Card, Tower, Unit, Vec2D};
use crate::fixed::SCALE;
use crate::game::GameView;
use crate::rules::{
    advanced, alive, all_advanced, cooled, engaged, first_target, fought, in_range, struck,
    survivors, tower_after, towers_after, REFIRE_INTERVAL,
};
use crate::search::{lemma_first_where_absent, lemma_first_where_cases, lemma_first_where_found};

verus! {

/// One call of `spawn_unit`: the card's id and the place.
pub struct SpawnCall {
    pub card_id: u32,
    pub x: i64,
    pub y: i64,
}

/// The session after a run of spawns, applied in order.
pub open spec fn after_spawns(v: GameView, calls: Seq<SpawnCall>) -> GameView
    decreases calls.len(),
{
    if calls.len() == 0 {
        v
    } else {
        let c = calls.last();
        after_spawns(v, calls.drop_last()).spawned(c.card_id, c.x, c.y)
    }
}

/// A spawn takes from the first player exactly the card's cost where it goes
/// through and nothing where it does not; it touches no other player, no
/// tower and no card.
pub proof fn lemma_spawn_pays_exactly(v: GameView, card_id: u32, x: i64, y: i64)
    requires
        v.players.len() > 0,
    ensures
        v.spawned(card_id, x, y).players.len() == v.players.len(),
        v.spawned(card_id, x, y).towers == v.towers,
        v.spawned(card_id, x, y).cards == v.cards,
        forall|i: int| 0 < i < v.players.len() ==> v.spawned(card_id, x, y).players[i] == v.players[i],
        v.spawned(card_id, x, y).players[0].id == v.players[0].id,
        v.can_spawn(card_id) ==> v.spawned(card_id, x, y).players[0].elixir
            == v.players[0].elixir - v.cards[card_index(v.cards, card_id)->0].cost,
        !v.can_spawn(card_id) ==> v.spawned(card_id, x, y) == v,
{
}

/// Whatever is spawned, in whatever order, the first player's elixir never
/// goes below zero and never grows.
pub proof fn lemma_elixir_never_negative(v: GameView, calls: Seq<SpawnCall>)
    requires
        v.players.len() > 0,
    ensures
        after_spawns(v, calls).players.len() == v.players.len(),
        0 <= after_spawns(v, calls).players[0].elixir <= v.players[0].elixir,
    decreases calls.len(),
{
    if calls.len() > 0 {
        let c = calls.last();
        lemma_elixir_never_negative(v, calls.drop_last());
        lemma_spawn_pays_exactly(after_spawns(v, calls.drop_last()), c.card_id, c.x, c.y);
    }
}

/// Movement changes `y` and nothing else.
pub proof fn lemma_movement_changes_only_y(units: Seq<Unit>, dt: u64, i: int)
    requires
        0 <= i < units.len(),
    ensures
        all_advanced(units, dt).len() == units.len(),
        all_advanced(units, dt)[i] == (Unit { y: all_advanced(units, dt)[i].y, ..units[i] }),
{
}

/// The combat pass removes nobody and moves nobody: after any number of
/// towers, every unit is where it was, and its health has not grown.
pub proof fn lemma_combat_changes_only_health(
    units: Seq<Unit>,
    towers: Seq<Tower>,
    dt: u64,
    n: nat,
)
    ensures
        fought(units, towers, dt, n).len() == units.len(),
        forall|i: int|
            0 <= i < units.len() ==> {
                let after = #[trigger] fought(units, towers, dt, n)[i];
                &&& after == (Unit { health: after.health, ..units[i] })
                &&& after.health <= units[i].health
            },
    decreases n,
{
    if n > 0 {
        let before = fought(units, towers, dt, (n - 1) as nat);
        let t = towers[n - 1];
        lemma_combat_changes_only_health(units, towers, dt, (n - 1) as nat);
        lemma_first_where_cases(before, |u: Unit| in_range(u, t));
        assert forall|i: int| 0 <= i < units.len() implies {
            let after = #[trigger] fought(units, towers, dt, n)[i];
            &&& after == (Unit { health: after.health, ..units[i] })
            &&& after.health <= units[i].health
        } by {
            let prev = before[i];
            assert(prev == (Unit { health: prev.health, ..units[i] }));
        }
    }
}

/// Who is struck depends on where the units are, not on their health: two
/// sequences that agree on every position have the same first target.
pub proof fn lemma_target_ignores_health(a: Seq<Unit>, b: Seq<Unit>, t: Tower)
    requires
        a.len() == b.len(),
        forall|i: int| 0 <= i < a.len() ==> a[i].x == b[i].x && a[i].y == b[i].y,
    ensures
        first_target(a, t) == first_target(b, t),
{
    let p = |u: Unit| in_range(u, t);
    lemma_first_where_cases(a, p);
    match first_target(a, t) {
        Some(i) => {
            assert(in_range(b[i], t));
            assert forall|j: int| 0 <= j < i implies !p(#[trigger] b[j]) by {
                assert(!p(a[j]));
            }
            lemma_first_where_found(b, p, i);
        },
        None => {
            assert forall|j: int| 0 <= j < b.len() implies !p(#[trigger] b[j]) by {
                assert(!p(a[j]));
            }
            lemma_first_where_absent(b, p);
        },
    }
}

/// Combat comes before cleanup: a tower picks its target among all the
/// units that entered the pass, also those that an earlier tower has
/// already brought to zero health.
pub proof fn lemma_later_towers_see_the_fallen(units: Seq<Unit>, towers: Seq<Tower>, dt: u64, k: int)
    requires
        0 <= k < towers.len(),
    ensures
        first_target(fought(units, towers, dt, k as nat), towers[k]) == first_target(
            units,
            towers[k],
        ),
{
    lemma_combat_changes_only_health(units, towers, dt, k as nat);
    lemma_target_ignores_health(fought(units, towers, dt, k as nat), units, towers[k]);
}

/// A unit that no tower has in range when the towers take their turns
/// leaves the combat pass exactly as it entered it.
pub proof fn lemma_out_of_range_unharmed(
    units: Seq<Unit>,
    towers: Seq<Tower>,
    dt: u64,
    n: nat,
    i: int,
)
    requires
        0 <= i < units.len(),
        n <= towers.len(),
        forall|k: int| 0 <= k < n ==> !in_range(units[i], #[trigger] towers[k]),
    ensures
        fought(units, towers, dt, n)[i] == units[i],
    decreases n,
{
    if n > 0 {
        let before = fought(units, towers, dt, (n - 1) as nat);
        let t = towers[n - 1];
        lemma_out_of_range_unharmed(units, towers, dt, (n - 1) as nat, i);
        lemma_combat_changes_only_health(units, towers, dt, (n - 1) as nat);
        lemma_first_where_cases(before, |u: Unit| in_range(u, t));
        assert(!in_range(units[i], t));
    }
}

/// The same of a whole tick: a unit that is out of every tower's range once
/// it has moved keeps its health, whatever the cooldowns are.
pub proof fn lemma_tick_spares_out_of_range(v: GameView, dt: u64, i: int)
    requires
        0 <= i < v.units.len(),
        forall|k: int|
            0 <= k < v.towers.len() ==> !in_range(advanced(v.units[i], dt), #[trigger] v.towers[k]),
    ensures
        fought(all_advanced(v.units, dt), v.towers, dt, v.towers.len())[i] == advanced(
            v.units[i],
            dt,
        ),
        advanced(v.units[i], dt).health == v.units[i].health,
        v.units[i].health > 0 ==> v.ticked(dt).units.contains(advanced(v.units[i], dt)),
{
    let moved = all_advanced(v.units, dt);
    lemma_out_of_range_unharmed(moved, v.towers, dt, v.towers.len(), i);
    let after = fought(moved, v.towers, dt, v.towers.len());
    lemma_combat_changes_only_health(moved, v.towers, dt, v.towers.len());
    if v.units[i].health > 0 {
        assert(alive()(after[i]));
        after.lemma_filter_contains(alive(), i);
    }
}

/// A miss does not reset the cooldown: with nothing in range the tower only
/// cools down, below zero if need be, and no unit changes.
pub proof fn lemma_miss_keeps_cooling(units: Seq<Unit>, t: Tower, dt: u64)
    requires
        first_target(units, t) is None,
    ensures
        engaged(units, t, dt).0 == units,
        engaged(units, t, dt).1 == (Tower { attack_cooldown: cooled(t.attack_cooldown, dt), ..t }),
        cooled(t.attack_cooldown, dt) <= t.attack_cooldown,
{
}

/// A tower whose cooldown has run out strikes in the first tick that finds
/// a unit in range, however short the tick: the first such unit is struck
/// once, no other unit changes, and the cooldown is exactly
/// `REFIRE_INTERVAL` afterwards.
pub proof fn lemma_ready_tower_strikes_at_once(units: Seq<Unit>, t: Tower, dt: u64, i: int)
    requires
        t.attack_cooldown <= 0,
        first_target(units, t) == Some(i),
    ensures
        0 <= i < units.len(),
        in_range(units[i], t),
        engaged(units, t, dt).0 == units.update(i, struck(units[i], t.damage)),
        engaged(units, t, dt).1 == (Tower { attack_cooldown: REFIRE_INTERVAL, ..t }),
{
    lemma_first_where_cases(units, |u: Unit| in_range(u, t));
}

/// A tower strikes at most one unit in a tick, however far below zero its
/// cooldown has run.
pub proof fn lemma_one_strike_per_turn(units: Seq<Unit>, t: Tower, dt: u64)
    ensures
        engaged(units, t, dt).0.len() == units.len(),
        forall|i: int, j: int|
            0 <= i < j < units.len() ==> engaged(units, t, dt).0[i] == units[i] || engaged(
                units,
                t,
                dt,
            ).0[j] == units[j],
{
    lemma_first_where_cases(units, |u: Unit| in_range(u, t));
}

/// A turn takes health and never gives any: with every further tower a
/// unit's health stays or falls.
pub proof fn lemma_health_only_falls(
    units: Seq<Unit>,
    towers: Seq<Tower>,
    dt: u64,
    m: nat,
    n: nat,
    i: int,
)
    requires
        m <= n,
        0 <= i < units.len(),
    ensures
        fought(units, towers, dt, n)[i].health <= fought(units, towers, dt, m)[i].health,
    decreases n,
{
    if m < n {
        let before = fought(units, towers, dt, (n - 1) as nat);
        lemma_health_only_falls(units, towers, dt, m, (n - 1) as nat, i);
        lemma_combat_changes_only_health(units, towers, dt, (n - 1) as nat);
        lemma_first_where_cases(before, |u: Unit| in_range(u, towers[n - 1]));
    }
}

/// Cleanup shortens a sequence that holds a unit without health.
pub proof fn lemma_the_dead_are_removed(units: Seq<Unit>, i: int)
    requires
        0 <= i < units.len(),
        units[i].health == 0,
    ensures
        survivors(units).len() < units.len(),
    decreases units.len(),
{
    let init = units.drop_last();
    init.lemma_filter_push(units.last(), alive());
    assert(init.push(units.last()) =~= units);
    if i < units.len() - 1 {
        lemma_the_dead_are_removed(init, i);
    } else {
        init.lemma_filter_len(alive());
    }
}

/// A strike that takes all the health that is left removes the unit in the
/// same tick: where a tower that is ready after cooling has unit `i` as its
/// first target and deals at least the unit's health, the unit has no
/// health when the towers are done, and fewer units leave the tick than
/// entered it.
pub proof fn lemma_lethal_strike_removes(v: GameView, dt: u64, k: int, i: int)
    requires
        0 <= k < v.towers.len(),
        cooled(v.towers[k].attack_cooldown, dt) <= 0,
        first_target(all_advanced(v.units, dt), v.towers[k]) == Some(i),
        0 <= i < v.units.len(),
        v.towers[k].damage >= v.units[i].health,
    ensures
        fought(all_advanced(v.units, dt), v.towers, dt, v.towers.len())[i].health == 0,
        v.ticked(dt).units.len() < v.units.len(),
{
    let moved = all_advanced(v.units, dt);
    let n = v.towers.len();
    lemma_later_towers_see_the_fallen(moved, v.towers, dt, k);
    lemma_combat_changes_only_health(moved, v.towers, dt, k as nat);
    assert(fought(moved, v.towers, dt, (k + 1) as nat) == engaged(
        fought(moved, v.towers, dt, k as nat),
        v.towers[k],
        dt,
    ).0);
    assert(fought(moved, v.towers, dt, (k + 1) as nat)[i].health == 0);
    lemma_health_only_falls(moved, v.towers, dt, (k + 1) as nat, n, i);
    lemma_combat_changes_only_health(moved, v.towers, dt, n);
    lemma_the_dead_are_removed(fought(moved, v.towers, dt, n), i);
}

/// No unit without health outlives a tick, and the tick keeps the order of
/// those that stay.
pub proof fn lemma_no_dead_after_tick(v: GameView, dt: u64)
    ensures
        v.ticked(dt).units.len() <= v.units.len(),
        forall|i: int| 0 <= i < v.ticked(dt).units.len() ==> (#[trigger] v.ticked(dt).units[i]).health > 0,
        v.ticked(dt).towers.len() == v.towers.len(),
        v.ticked(dt).players == v.players,
        v.ticked(dt).cards == v.cards,
{
    let moved = all_advanced(v.units, dt);
    let after = fought(moved, v.towers, dt, v.towers.len());
    lemma_combat_changes_only_health(moved, v.towers, dt, v.towers.len());
    after.lemma_filter_len(alive());
    assert forall|i: int| 0 <= i < v.ticked(dt).units.len() implies (#[trigger] v.ticked(dt).units[i]).health > 0 by {
        after.lemma_filter_pred(alive(), i);
    }
}

/// A session in which a tick of no time changes nothing: every unit is
/// alive, and no tower is both ready and in range of a unit.
pub open spec fn at_rest(v: GameView) -> bool {
    &&& forall|i: int| 0 <= i < v.units.len() ==> (#[trigger] v.units[i]).health > 0
    &&& forall|k: int|
        0 <= k < v.towers.len() ==> (#[trigger] v.towers[k]).attack_cooldown > 0
            || first_target(v.units, v.towers[k]) is None
}

/// A tick of no time leaves a session at rest exactly as it is: positions,
/// health, elixir and cooldowns.
pub proof fn lemma_empty_tick_changes_nothing(v: GameView)
    requires
        at_rest(v),
    ensures
        v.ticked(0) == v,
{
    lemma_standing_still(v.units);
    lemma_idle_towers(v.units, v.towers, v.towers.len());
    lemma_all_alive_survive(v.units);
    assert(towers_after(v.units, v.towers, 0) =~= v.towers) by {
        assert forall|k: int| 0 <= k < v.towers.len() implies tower_after(v.units, v.towers, 0, k)
            == v.towers[k] by {
            lemma_idle_towers(v.units, v.towers, k as nat);
        }
    }
}

/// In any other session a tick of no time does change something: it removes
/// a unit without health, or lets a ready tower strike.
pub proof fn lemma_empty_tick_changes_the_rest(v: GameView)
    requires
        !at_rest(v),
    ensures
        v.ticked(0) != v,
{
    lemma_standing_still(v.units);
    let units = v.units;
    if exists|k: int|
        0 <= k < v.towers.len() && !((#[trigger] v.towers[k]).attack_cooldown > 0 || first_target(
            units,
            v.towers[k],
        ) is None) {
        let k = choose|k: int|
            0 <= k < v.towers.len() && !((#[trigger] v.towers[k]).attack_cooldown > 0
                || first_target(units, v.towers[k]) is None);
        lemma_later_towers_see_the_fallen(units, v.towers, 0, k);
        assert(v.ticked(0).towers[k] == tower_after(units, v.towers, 0, k));
        assert(v.ticked(0).towers[k].attack_cooldown == REFIRE_INTERVAL);
    } else {
        let i = choose|i: int| 0 <= i < units.len() && !((#[trigger] units[i]).health > 0);
        assert(0 <= i < units.len() && units[i].health == 0);
        lemma_idle_towers(units, v.towers, v.towers.len());
        if survivors(units) == units {
            units.lemma_filter_pred(alive(), i);
        }
    }
}

/// In no time nobody moves.
proof fn lemma_standing_still(units: Seq<Unit>)
    ensures
        all_advanced(units, 0) == units,
{
    assert forall|i: int| 0 <= i < units.len() implies advanced(#[trigger] units[i], 0)
        == units[i] by {
        let rate = units[i].velocity as int;
        assert(rate * 0 == 0) by (nonlinear_arith);
        assert(0int / (SCALE as int) == 0);
    }
    assert(all_advanced(units, 0) =~= units);
}

/// Towers that are not ready, or have nothing in range, leave the units
/// alone and keep their cooldown in a tick of no time.
proof fn lemma_idle_towers(units: Seq<Unit>, towers: Seq<Tower>, n: nat)
    requires
        n <= towers.len(),
        forall|k: int|
            0 <= k < towers.len() ==> (#[trigger] towers[k]).attack_cooldown > 0 || first_target(
                units,
                towers[k],
            ) is None,
    ensures
        fought(units, towers, 0, n) == units,
        n < towers.len() ==> tower_after(units, towers, 0, n as int) == towers[n as int],
    decreases n,
{
    if n > 0 {
        lemma_idle_towers(units, towers, (n - 1) as nat);
        assert(tower_after(units, towers, 0, n - 1) == towers[n - 1]);
    }
    if n < towers.len() {
        let t = towers[n as int];
        assert(t.attack_cooldown > 0 || first_target(units, t) is None);
        assert(engaged(units, t, 0).1 == t);
    }
}

/// Cleanup removes nobody where everybody is alive.
proof fn lemma_all_alive_survive(units: Seq<Unit>)
    requires
        forall|i: int| 0 <= i < units.len() ==> (#[trigger] units[i]).health > 0,
    ensures
        survivors(units) == units,
    decreases units.len(),
{
    if units.len() > 0 {
        let init = units.drop_last();
        lemma_all_alive_survive(init);
        init.lemma_filter_push(units.last(), alive());
        assert(init.push(units.last()) =~= units);
    } else {
        assert(units.filter(alive()) =~= units) by {
            units.lemma_filter_len(alive());
        }
    }
}

/// A deployment is the only thing that costs elixir or takes a card from
/// the hand. The frame that deploys pays exactly the cost of the card in
/// the grip and hands out a unit with that card's id and health at the
/// pointer; every other frame leaves the elixir and the number of cards as
/// they are. The elixir never goes below zero, and the slots and the layout
/// never change.
pub proof fn lemma_deploy_pays_exactly(deck: DeckView, p: Vec2D, b: ButtonState, elixir: u32)
    ensures
        ({
            let (after, left, deployed) = deck.stepped(p, b, elixir);
            &&& 0 <= left <= elixir
            &&& after.layout == deck.layout
            &&& after.slot_positions == deck.slot_positions
            &&& match deployed {
                Some(unit) => {
                    &&& b.released
                    &&& card_index(deck.cards, unit.id) is Some
                    &&& left == elixir - deck.cards[card_index(deck.cards, unit.id)->0].cost
                    &&& unit.health == deck.cards[card_index(deck.cards, unit.id)->0].health
                    &&& unit.x == p.x && unit.y == p.y
                    &&& unit.velocity == DEPLOY_VELOCITY
                    &&& after.cards.len() == deck.cards.len() - 1
                },
                None => left == elixir && after.cards.len() == deck.cards.len(),
            }
        }),
{
    let dragged = deck.grabbed(p, b).card_dragged(p);
    if dragged.dragging_unit is Some {
        let id = dragged.dragging_unit->0.id;
        lemma_first_where_cases(dragged.cards, |c: Card| c.id == id);
        lemma_moving_a_card_keeps_ids(deck.cards, dragged.cards, id);
    }
}

/// Two hands whose cards agree in everything but their places find the
/// same card for an id.
proof fn lemma_moving_a_card_keeps_ids(a: Seq<Card>, b: Seq<Card>, id: u32)
    requires
        a.len() == b.len(),
        forall|i: int| 0 <= i < a.len() ==> b[i] == (Card { pos: b[i].pos, ..a[i] }),
    ensures
        card_index(a, id) == card_index(b, id),
{
    let p = |c: Card| c.id == id;
    lemma_first_where_cases(a, p);
    match card_index(a, id) {
        Some(i) => {
            assert(p(b[i]));
            assert forall|j: int| 0 <= j < i implies !p(#[trigger] b[j]) by {
                assert(!p(a[j]));
            }
            lemma_first_where_found(b, p, i);
        },
        None => {
            assert forall|j: int| 0 <= j < b.len() implies !p(#[trigger] b[j]) by {
                assert(!p(a[j]));
            }
            lemma_first_where_absent(b, p);
        },
    }
}

/// The grip holds one thing at most: a deck that does not hold a card and
/// a unit at once never comes to.
pub proof fn lemma_grip_holds_one(deck: DeckView, p: Vec2D, b: ButtonState, elixir: u32)
    requires
        deck.dragging_card is None || deck.dragging_unit is None,
    ensures
        deck.stepped(p, b, elixir).0.dragging_card is None || deck.stepped(
            p,
            b,
            elixir,
        ).0.dragging_unit is None,
{
}

/// A release always empties the grip.
pub proof fn lemma_release_empties_the_grip(deck: DeckView, p: Vec2D, b: ButtonState, elixir: u32)
    requires
        b.released,
    ensures
        deck.stepped(p, b, elixir).0.dragging_card is None,
        deck.stepped(p, b, elixir).0.dragging_unit is None,
{
}

/// No two cards of the hand have the same id.
pub open spec fn ids_distinct(cards: Seq<Card>) -> bool {
    forall|i: int, j: int| 0 <= i < j < cards.len() ==> cards[i].id != cards[j].id
}

/// A hand in which every id names one card stays such a hand: a frame
/// moves cards and may take one away, and does nothing else to them.
pub proof fn lemma_step_keeps_ids_distinct(deck: DeckView, p: Vec2D, b: ButtonState, elixir: u32)
    requires
        ids_distinct(deck.cards),
    ensures
        ids_distinct(deck.stepped(p, b, elixir).0.cards),
{
    let grabbed = deck.grabbed(p, b);
    let dragged = grabbed.card_dragged(p);
    if grabbed.dragging_card is Some {
        lemma_first_where_cases(grabbed.cards, |c: Card| c.id == grabbed.dragging_card->0.id);
    }
    assert(ids_distinct(dragged.cards));
    let (dropped, left, deployed) = dragged.unit_dragged(p, b, elixir);
    if dragged.dragging_unit is Some {
        lemma_first_where_cases(dragged.cards, |c: Card| c.id == dragged.dragging_unit->0.id);
    }
    assert(ids_distinct(dropped.cards));
    if dropped.dragging_card is Some {
        lemma_first_where_cases(dropped.cards, |c: Card| c.id == dropped.dragging_card->0.id);
    }
}

} // verus!
