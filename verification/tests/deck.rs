use tower_defense::{ButtonState, Card, Deck, DeckLayout, Drag, LayoutError, Unit, Vec2D};

const IDLE: ButtonState = ButtonState { pressed: false, down: false, released: false };
const PRESS: ButtonState = ButtonState { pressed: true, down: true, released: false };
const HOLD: ButtonState = ButtonState { pressed: false, down: true, released: false };
const RELEASE: ButtonState = ButtonState { pressed: false, down: false, released: true };

fn layout() -> DeckLayout {
    DeckLayout {
        deck_x: 100,
        deck_y: 800,
        deck_width: 800,
        deck_height: 150,
        card_width: 120,
        card_height: 100,
        slot_padding_x: 10,
        slot_padding_y: 5,
    }
}

fn card(id: u32, cost: u32, health: u32) -> Card {
    Card {
        id,
        name: format!("card {}", id),
        cost,
        pos: Vec2D { x: 0, y: 0 },
        width: 120,
        height: 100,
        health,
    }
}

fn hand() -> Vec<Card> {
    vec![card(0, 7, 1000), card(1, 2, 200), card(2, 3, 300), card(3, 4, 800), card(4, 4, 800)]
}

fn deck() -> Deck {
    Deck::new(hand(), layout()).unwrap()
}

fn at(x: i64, y: i64) -> Vec2D {
    Vec2D { x, y }
}

#[test]
fn slots_are_centred_in_the_deck() {
    // Slots are 140 wide; 4 * 140 = 560 leaves 800 - 560 - 20 = 220, a gap of 73
    // between slots. The row is 779 wide, so it starts 10 in; each card sits
    // 10 further in. Slots are 110 high in a room of 140, so 15 down, plus 10.
    let deck = deck();
    assert_eq!(
        deck.slot_positions,
        vec![at(120, 825), at(333, 825), at(546, 825), at(759, 825)]
    );
    let places: Vec<Vec2D> = deck.cards.iter().map(|c| c.pos).collect();
    assert_eq!(places, vec![at(120, 825), at(333, 825), at(546, 825), at(759, 825), at(0, 0)]);
    assert_eq!(deck.dragging_card, None);
    assert_eq!(deck.dragging_unit, None);
    assert_eq!(deck.layout, layout());
    let ids: Vec<u32> = deck.cards.iter().map(|c| c.id).collect();
    assert_eq!(ids, vec![0, 1, 2, 3, 4]);
}

#[test]
fn short_hand_fills_the_first_slots() {
    let deck = Deck::new(vec![card(5, 1, 1), card(6, 1, 1)], layout()).unwrap();
    assert_eq!(deck.slot_positions.len(), 4);
    let places: Vec<Vec2D> = deck.cards.iter().map(|c| c.pos).collect();
    assert_eq!(places, vec![at(120, 825), at(333, 825)]);
    let empty = Deck::new(Vec::new(), layout()).unwrap();
    assert!(empty.cards.is_empty());
    assert_eq!(empty.slot_positions.len(), 4);
}

#[test]
fn slots_without_spare_width_touch() {
    let tight = DeckLayout { deck_width: 560, slot_padding_x: 0, card_width: 140, ..layout() };
    assert_eq!(
        tight.slots().unwrap(),
        vec![at(100, 825), at(240, 825), at(380, 825), at(520, 825)]
    );
}

#[test]
fn layout_too_wide_is_refused() {
    let wide = DeckLayout { card_width: 200, ..layout() };
    assert_eq!(wide.slots(), Err(LayoutError::TooWide));
    assert_eq!(Deck::new(hand(), wide).err(), Some(LayoutError::TooWide));
    let negative_padding = DeckLayout { slot_padding_x: -30, card_width: 100, ..layout() };
    assert_eq!(negative_padding.slots(), Err(LayoutError::TooWide));
}

#[test]
fn layout_too_tall_is_refused() {
    let tall = DeckLayout { card_height: 131, ..layout() };
    assert_eq!(tall.slots(), Err(LayoutError::TooTall));
    assert_eq!(Deck::new(hand(), tall).err(), Some(LayoutError::TooTall));
    let fits = DeckLayout { card_height: 130, ..layout() };
    assert!(fits.slots().is_ok());
}

#[test]
fn width_is_checked_before_height() {
    let both = DeckLayout { card_width: 200, card_height: 131, ..layout() };
    assert_eq!(both.slots(), Err(LayoutError::TooWide));
}

#[test]
fn extreme_layout_does_not_overflow() {
    let huge = DeckLayout {
        deck_x: i64::MAX,
        deck_y: i64::MAX,
        deck_width: i64::MAX,
        deck_height: i64::MAX,
        card_width: 1,
        card_height: 1,
        slot_padding_x: 0,
        slot_padding_y: 0,
    };
    let slots = huge.slots().unwrap();
    assert_eq!(slots, vec![at(i64::MAX, i64::MAX); 4]);
    let none = DeckLayout {
        deck_x: i64::MIN,
        deck_y: i64::MIN,
        deck_width: i64::MIN,
        deck_height: i64::MIN,
        card_width: i64::MIN,
        card_height: i64::MIN,
        slot_padding_x: i64::MIN,
        slot_padding_y: i64::MIN,
    };
    assert_eq!(none.slots(), Err(LayoutError::TooWide));
}

#[test]
fn in_deck_is_the_column_from_the_top_edge_down() {
    let l = layout();
    assert!(l.holds(at(100, 800)));
    assert!(l.holds(at(900, 5_000)));
    assert!(!l.holds(at(99, 800)));
    assert!(!l.holds(at(901, 800)));
    assert!(!l.holds(at(500, 799)));
    let edge = DeckLayout { deck_x: i64::MAX, deck_width: i64::MAX, ..layout() };
    assert!(edge.holds(at(i64::MAX, 800)));
}

#[test]
fn press_on_a_card_grabs_it() {
    let mut deck = deck();
    let mut elixir = 10;
    let out = deck.update(at(350, 830), PRESS, &mut elixir);
    assert_eq!(out, None);
    assert_eq!(elixir, 10);
    assert_eq!(
        deck.dragging_card,
        Some(Drag { id: 1, offset: at(17, 5), origin: at(333, 825) })
    );
    assert_eq!(deck.dragging_unit, None);
    assert_eq!(deck.cards[1].pos, at(333, 825));
}

#[test]
fn press_beside_the_cards_grabs_nothing() {
    let mut deck = deck();
    let mut elixir = 10;
    assert_eq!(deck.update(at(300, 830), PRESS, &mut elixir), None);
    assert_eq!(deck.dragging_card, None);
    assert_eq!(deck.dragging_unit, None);
    // Without a press, a pointer over a card grabs nothing either.
    assert_eq!(deck.update(at(350, 830), HOLD, &mut elixir), None);
    assert_eq!(deck.dragging_card, None);
}

#[test]
fn press_takes_the_first_card_under_the_pointer() {
    let mut deck = deck();
    deck.cards[3].pos = at(333, 825);
    let mut elixir = 10;
    deck.update(at(340, 830), PRESS, &mut elixir);
    assert_eq!(deck.dragging_card.map(|d| d.id), Some(1));
}

#[test]
fn a_grabbed_card_follows_the_pointer() {
    let mut deck = deck();
    let mut elixir = 10;
    deck.update(at(350, 830), PRESS, &mut elixir);
    deck.update(at(400, 810), HOLD, &mut elixir);
    assert_eq!(deck.cards[1].pos, at(383, 805));
    assert_eq!(deck.dragging_card.map(|d| d.id), Some(1));
    // It stays on the screen: 0..=880 across, 0..=900 down.
    deck.update(at(999, 999), HOLD, &mut elixir);
    assert_eq!(deck.cards[1].pos, at(880, 900));
    deck.update(at(0, 760), HOLD, &mut elixir);
    assert_eq!(deck.cards[1].pos, at(0, 755));
    assert_eq!(deck.dragging_card.map(|d| d.id), Some(1));
    assert_eq!(deck.dragging_unit, None);
}

#[test]
fn a_card_lifted_clear_of_the_deck_becomes_a_unit() {
    let mut deck = deck();
    let mut elixir = 10;
    deck.update(at(350, 830), PRESS, &mut elixir);
    // The card's top at 750 is not yet more than 50 above the deck at 800.
    deck.update(at(350, 755), HOLD, &mut elixir);
    assert_eq!(deck.cards[1].pos, at(333, 750));
    assert_eq!(deck.dragging_unit, None);
    deck.update(at(350, 754), HOLD, &mut elixir);
    assert_eq!(deck.cards[1].pos, at(333, 749));
    assert_eq!(deck.dragging_card, None);
    assert_eq!(
        deck.dragging_unit,
        Some(Drag { id: 1, offset: at(0, 0), origin: at(333, 825) })
    );
    // As a unit it no longer moves the card.
    deck.update(at(500, 300), HOLD, &mut elixir);
    assert_eq!(deck.cards[1].pos, at(333, 749));
}

#[test]
fn a_unit_brought_back_into_the_deck_is_a_card_again() {
    let mut deck = deck();
    let mut elixir = 10;
    deck.update(at(350, 830), PRESS, &mut elixir);
    deck.update(at(350, 700), HOLD, &mut elixir);
    assert!(deck.dragging_unit.is_some());
    deck.update(at(500, 820), HOLD, &mut elixir);
    assert_eq!(deck.dragging_unit, None);
    assert_eq!(
        deck.dragging_card,
        Some(Drag { id: 1, offset: at(60, 50), origin: at(333, 825) })
    );
    // The card catches up in the next frame, held by its centre.
    assert_eq!(deck.cards[1].pos, at(333, 695));
    deck.update(at(500, 820), HOLD, &mut elixir);
    assert_eq!(deck.cards[1].pos, at(440, 770));
}

#[test]
fn a_unit_stays_a_unit_without_the_button_down() {
    let mut deck = deck();
    let mut elixir = 10;
    deck.update(at(350, 830), PRESS, &mut elixir);
    deck.update(at(350, 700), HOLD, &mut elixir);
    deck.update(at(500, 820), IDLE, &mut elixir);
    assert!(deck.dragging_unit.is_some());
    assert_eq!(deck.dragging_card, None);
}

#[test]
fn release_over_the_battlefield_deploys() {
    let mut deck = deck();
    let mut elixir = 10;
    deck.update(at(350, 830), PRESS, &mut elixir);
    deck.update(at(350, 700), HOLD, &mut elixir);
    let out = deck.update(at(420, 310), RELEASE, &mut elixir);
    assert_eq!(out, Some(Unit { id: 1, x: 420, y: 310, health: 200, velocity: 10_000 }));
    assert_eq!(elixir, 8);
    let ids: Vec<u32> = deck.cards.iter().map(|c| c.id).collect();
    assert_eq!(ids, vec![0, 2, 3, 4]);
    assert_eq!(deck.dragging_card, None);
    assert_eq!(deck.dragging_unit, None);
    assert_eq!(deck.slot_positions.len(), 4);
}

#[test]
fn release_without_the_elixir_puts_the_card_back() {
    let mut deck = deck();
    let mut elixir = 6;
    deck.update(at(130, 830), PRESS, &mut elixir);
    deck.update(at(130, 700), HOLD, &mut elixir);
    assert_eq!(deck.dragging_unit.map(|d| d.id), Some(0));
    let out = deck.update(at(130, 300), RELEASE, &mut elixir);
    assert_eq!(out, None);
    assert_eq!(elixir, 6);
    assert_eq!(deck.cards.len(), 5);
    assert_eq!(deck.cards[0].pos, at(120, 825));
    assert_eq!(deck.dragging_card, None);
    assert_eq!(deck.dragging_unit, None);
}

#[test]
fn release_at_exact_cost_deploys() {
    let mut deck = deck();
    let mut elixir = 7;
    deck.update(at(130, 830), PRESS, &mut elixir);
    deck.update(at(130, 700), HOLD, &mut elixir);
    let out = deck.update(at(130, 799), RELEASE, &mut elixir);
    assert_eq!(out, Some(Unit { id: 0, x: 130, y: 799, health: 1000, velocity: 10_000 }));
    assert_eq!(elixir, 0);
}

#[test]
fn release_of_a_unit_at_the_decks_height_puts_the_card_back() {
    let mut deck = deck();
    let mut elixir = 10;
    deck.update(at(350, 830), PRESS, &mut elixir);
    deck.update(at(350, 700), HOLD, &mut elixir);
    // Beside the deck's column, but not above the deck.
    let out = deck.update(at(50, 800), RELEASE, &mut elixir);
    assert_eq!(out, None);
    assert_eq!(elixir, 10);
    assert_eq!(deck.cards[1].pos, at(333, 825));
    assert_eq!(deck.dragging_unit, None);
    assert_eq!(deck.dragging_card, None);
}

#[test]
fn release_of_a_card_puts_it_back() {
    let mut deck = deck();
    let mut elixir = 10;
    deck.update(at(350, 830), PRESS, &mut elixir);
    deck.update(at(400, 810), HOLD, &mut elixir);
    let out = deck.update(at(410, 815), RELEASE, &mut elixir);
    assert_eq!(out, None);
    assert_eq!(elixir, 10);
    assert_eq!(deck.cards[1].pos, at(333, 825));
    assert_eq!(deck.dragging_card, None);
    assert_eq!(deck.dragging_unit, None);
}

#[test]
fn lift_and_release_in_one_frame_deploys() {
    let mut deck = deck();
    let mut elixir = 10;
    deck.update(at(350, 830), PRESS, &mut elixir);
    let out = deck.update(at(350, 400), RELEASE, &mut elixir);
    assert_eq!(out, Some(Unit { id: 1, x: 350, y: 400, health: 200, velocity: 10_000 }));
    assert_eq!(elixir, 8);
    assert_eq!(deck.cards.len(), 4);
}

#[test]
fn a_grip_on_a_card_that_is_gone_lets_go_quietly() {
    let mut deck = deck();
    let mut elixir = 10;
    deck.dragging_unit = Some(Drag { id: 77, offset: at(0, 0), origin: at(1, 1) });
    assert_eq!(deck.update(at(500, 300), HOLD, &mut elixir), None);
    assert!(deck.dragging_unit.is_some());
    assert_eq!(deck.update(at(500, 300), RELEASE, &mut elixir), None);
    assert_eq!(deck.dragging_unit, None);
    assert_eq!(elixir, 10);
    assert_eq!(deck.cards.len(), 5);
    deck.dragging_card = Some(Drag { id: 77, offset: at(0, 0), origin: at(1, 1) });
    assert_eq!(deck.update(at(500, 300), HOLD, &mut elixir), None);
    assert!(deck.dragging_card.is_some());
    assert_eq!(deck.update(at(500, 300), RELEASE, &mut elixir), None);
    assert_eq!(deck.dragging_card, None);
    let places: Vec<Vec2D> = deck.cards.iter().map(|c| c.pos).collect();
    assert_eq!(places, vec![at(120, 825), at(333, 825), at(546, 825), at(759, 825), at(0, 0)]);
}

#[test]
fn a_press_while_dragging_grabs_nothing_new() {
    let mut deck = deck();
    let mut elixir = 10;
    deck.update(at(350, 830), PRESS, &mut elixir);
    deck.update(at(130, 830), PRESS, &mut elixir);
    assert_eq!(deck.dragging_card.map(|d| d.id), Some(1));
}

#[test]
fn an_idle_frame_changes_nothing() {
    let mut deck = deck();
    let mut elixir = 3;
    assert_eq!(deck.update(at(350, 830), IDLE, &mut elixir), None);
    assert_eq!(deck.update(at(350, 830), RELEASE, &mut elixir), None);
    assert_eq!(elixir, 3);
    let places: Vec<Vec2D> = deck.cards.iter().map(|c| c.pos).collect();
    assert_eq!(places, vec![at(120, 825), at(333, 825), at(546, 825), at(759, 825), at(0, 0)]);
    assert_eq!(deck.dragging_card, None);
    assert_eq!(deck.dragging_unit, None);
}
