use tower_defense::fixed::{clamp_to, difference, halved, narrow, product, sum, travel};
use tower_defense::{Card, ElixirBar, Vec2D, SCALE};

fn card_at(x: i64, y: i64, width: i64, height: i64) -> Card {
    Card { id: 1, name: "Knight".to_string(), cost: 4, pos: Vec2D { x, y }, width, height, health: 800 }
}

#[test]
fn card_edges() {
    let mut card = card_at(100, 700, 200, 250);
    assert_eq!(card.left(), 100);
    assert_eq!(card.right(), 300);
    assert_eq!(card.top(), 700);
    assert_eq!(card.bottom(), 950);
    assert_eq!(card, card_at(100, 700, 200, 250));
}

#[test]
fn card_edges_saturate() {
    let mut card = card_at(i64::MAX - 1, i64::MIN + 1, 5, -5);
    assert_eq!(card.right(), i64::MAX);
    assert_eq!(card.bottom(), i64::MIN);
}

#[test]
fn card_contains_on_a_unit_screen() {
    let mut card = card_at(100, 700, 200, 250);
    assert!(card.contains(100, 700, SCALE, SCALE));
    assert!(card.contains(300, 949, SCALE, SCALE));
    assert!(!card.contains(99, 700, SCALE, SCALE));
    assert!(!card.contains(301, 700, SCALE, SCALE));
    assert!(!card.contains(100, 699, SCALE, SCALE));
    assert!(!card.contains(100, 950, SCALE, SCALE));
}

#[test]
fn card_contains_scales_with_the_screen() {
    // A screen of 480 by 854: the card spans 48..=144 across and 597.8..811.3 down.
    let mut card = card_at(100, 700, 200, 250);
    assert!(card.contains(48_000, 597_800, 480_000, 854_000));
    assert!(card.contains(144_000, 811_299, 480_000, 854_000));
    assert!(!card.contains(47_999, 600_000, 480_000, 854_000));
    assert!(!card.contains(144_001, 600_000, 480_000, 854_000));
    assert!(!card.contains(48_000, 597_799, 480_000, 854_000));
    assert!(!card.contains(48_000, 811_300, 480_000, 854_000));
}

#[test]
fn card_contains_does_not_overflow() {
    let mut card = card_at(i64::MIN, i64::MIN, i64::MAX, i64::MAX);
    assert!(card.contains(i64::MIN, i64::MIN, i64::MAX, i64::MAX));
    assert!(!card.contains(i64::MAX, i64::MAX, i64::MAX, i64::MAX));
}

#[test]
fn elixir_bar_shows_seven_of_ten() {
    let bar = ElixirBar::new();
    assert_eq!(bar.elixir(), 7);
    let filled: Vec<bool> = (0..10).map(|i| bar.is_filled(i)).collect();
    assert_eq!(filled, vec![true, true, true, true, true, true, true, false, false, false]);
}

#[test]
fn default_elixir_bar_is_empty() {
    let bar = ElixirBar::default();
    assert_eq!(bar.elixir(), 0);
    assert!(!bar.is_filled(0));
}

#[test]
fn fixed_point_sums_saturate() {
    assert_eq!(sum(2, 3), 5);
    assert_eq!(sum(i64::MAX, 1), i64::MAX);
    assert_eq!(sum(i64::MIN, -1), i64::MIN);
    assert_eq!(difference(2, 3), -1);
    assert_eq!(difference(i64::MIN, 1), i64::MIN);
    assert_eq!(difference(0, i64::MIN), i64::MAX);
    assert_eq!(narrow(1 << 100), i64::MAX);
    assert_eq!(narrow(-(1 << 100)), i64::MIN);
    assert_eq!(narrow(-42), -42);
}

#[test]
fn fixed_point_products() {
    assert_eq!(product(i64::MIN, i64::MIN), 1i128 << 126);
    assert_eq!(product(-3, 7), -21);
    assert_eq!(travel(100_000, 500), 50_000);
    assert_eq!(travel(-100_000, 500), -50_000);
    assert_eq!(travel(1, 999), 0);
    assert_eq!(travel(-1, 999), 0);
    assert_eq!(travel(-1, 1_000), -1);
    assert_eq!(travel(i64::MIN, u64::MAX), -170141183460469231722463931679029329);
}

#[test]
fn clamp_and_half() {
    assert_eq!(clamp_to(5, 0, 10), 5);
    assert_eq!(clamp_to(-5, 0, 10), 0);
    assert_eq!(clamp_to(15, 0, 10), 10);
    assert_eq!(clamp_to(5, 0, -10), 0);
    assert_eq!(clamp_to(-50, 0, -10), 0);
    assert_eq!(halved(7), 3);
    assert_eq!(halved(-7), -3);
    assert_eq!(halved(i64::MIN), i64::MIN / 2);
}
