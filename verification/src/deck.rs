//! The hand of cards at the bottom of the screen: where its slots lie, and
//! what a pointer does to it.
//!
//! A card is grabbed in the deck and follows the pointer. Lifted clear of the
//! deck it stands for the unit it would deploy; brought back it is a card
//! again. Let go over the battlefield, with enough elixir, it is deployed:
//! the cost is paid, the card leaves the hand and a unit is handed out.
//! Let go anywhere else it returns to where it was taken from.
//!
//! All positions are fractions of the screen, in thousandths.

use vstd::prelude::*;
use crate::entities::{card_index, find_card, Card, Unit, Vec2D};
use crate::fixed::{clamp, clamp_to, difference, half, halved, narrow, saturate, SCALE};
use crate::search::{first_where, lemma_first_where_absent, lemma_first_where_found};

verus! {

/// The number of slots in the deck.
pub const SLOTS: usize = 4;

/// How far above the deck a card must be lifted to stand for its unit: a
/// twentieth of the screen.
pub const LIFT_MARGIN: i64 = 50;

/// The speed of a deployed unit: 10 distance units per second.
pub const DEPLOY_VELOCITY: i64 = 10_000;

/// Where the deck lies and how large its cards and their slots are.
#[derive(Clone, Copy, Debug, PartialEq, Eq, Structural)]
pub struct DeckLayout {
    pub deck_x: i64,
    pub deck_y: i64,
    pub deck_width: i64,
    pub deck_height: i64,
    pub card_width: i64,
    pub card_height: i64,
    pub slot_padding_x: i64,
    pub slot_padding_y: i64,
}

/// Why a layout cannot hold its slots.
#[derive(Clone, Copy, Debug, PartialEq, Eq, Structural)]
pub enum LayoutError {
    /// The row of slots is wider than the deck.
    TooWide,
    /// A slot is taller than the deck less its padding.
    TooTall,
}

/// A card in the pointer's grip: its id, the grip's offset from the card's
/// corner, and where the card was taken from.
#[derive(Clone, Copy, Debug, PartialEq, Eq, Structural)]
pub struct Drag {
    pub id: u32,
    pub offset: Vec2D,
    pub origin: Vec2D,
}

/// The state of the pointer's button in one frame.
#[derive(Clone, Copy, Debug, PartialEq, Eq, Structural)]
pub struct ButtonState {
    /// The button went down in this frame.
    pub pressed: bool,
    /// The button is held down.
    pub down: bool,
    /// The button came up in this frame.
    pub released: bool,
}

/// The hand of cards and the pointer's grip on it.
#[derive(Debug)]
pub struct Deck {
    pub cards: Vec<Card>,
    pub slot_positions: Vec<Vec2D>,
    pub dragging_card: Option<Drag>,
    pub dragging_unit: Option<Drag>,
    pub layout: DeckLayout,
}

/// A deck as sequences.
pub struct DeckView {
    pub cards: Seq<Card>,
    pub slot_positions: Seq<Vec2D>,
    pub dragging_card: Option<Drag>,
    pub dragging_unit: Option<Drag>,
    pub layout: DeckLayout,
}

impl View for Deck {
    type V = DeckView;

    open spec fn view(&self) -> DeckView {
        DeckView {
            cards: self.cards@,
            slot_positions: self.slot_positions@,
            dragging_card: self.dragging_card,
            dragging_unit: self.dragging_unit,
            layout: self.layout,
        }
    }
}

impl DeckLayout {
    /// The width of one slot: a card and its padding on both sides.
    pub open spec fn slot_width(self) -> int {
        self.card_width + 2 * self.slot_padding_x
    }

    /// The width of all slots, side by side.
    pub open spec fn slots_width(self) -> int {
        SLOTS * self.slot_width()
    }

    /// The gap between two slots: a third of the width that the slots and
    /// the deck's own padding leave, rounded down; none where they leave
    /// none.
    pub open spec fn spacing(self) -> int {
        let spare = self.deck_width - self.slots_width() - 2 * self.slot_padding_x;
        if spare > 0 {
            spare / (SLOTS - 1)
        } else {
            0
        }
    }

    /// The width of the row: the slots and the gaps between them.
    pub open spec fn row_width(self) -> int {
        self.slots_width() + self.spacing() * (SLOTS - 1)
    }

    /// The height of one slot.
    pub open spec fn slot_height(self) -> int {
        self.card_height + 2 * self.slot_padding_y
    }

    /// The height that the deck's padding leaves.
    pub open spec fn room_height(self) -> int {
        self.deck_height - 2 * self.slot_padding_y
    }

    /// The row of slots does not fit into the deck's width.
    pub open spec fn too_wide(self) -> bool {
        self.row_width() > self.deck_width
    }

    /// A slot does not fit into the height that the padding leaves.
    pub open spec fn too_tall(self) -> bool {
        self.slot_height() > self.room_height()
    }

    /// Where the card of slot `i` lies: the row is centred in the deck, the
    /// slot in the room that the padding leaves. Halves are rounded down.
    pub open spec fn slot_position(self, i: int) -> Vec2D {
        Vec2D {
            x: saturate(
                self.deck_x + (self.deck_width - self.row_width()) / 2 + (self.slot_width()
                    + self.spacing()) * i + self.slot_padding_x,
            ),
            y: saturate(
                self.deck_y + (self.room_height() - self.slot_height()) / 2 + 2
                    * self.slot_padding_y,
            ),
        }
    }

    /// Whether the point is in the deck's column, at the deck's height or
    /// below.
    pub open spec fn in_deck(self, p: Vec2D) -> bool {
        &&& p.y >= self.deck_y
        &&& p.x >= self.deck_x
        &&& p.x <= self.deck_x + self.deck_width
    }
}

/// The index of the first card that lies under the point `p`.
pub open spec fn card_under(cards: Seq<Card>, p: Vec2D) -> Option<int> {
    first_where(cards, |c: Card| c.covers(p.x as int, p.y as int, SCALE as int, SCALE as int))
}

/// The cards with card `i` moved to `pos`.
pub open spec fn with_card_at(cards: Seq<Card>, i: int, pos: Vec2D) -> Seq<Card> {
    cards.update(i, Card { pos: pos, ..cards[i] })
}

impl DeckView {
    /// A deck with its cards in their slots: the first `SLOTS` cards are
    /// moved to the slots' positions, and nothing is in the pointer's grip.
    pub open spec fn laid_out(cards: Seq<Card>, layout: DeckLayout) -> DeckView {
        DeckView {
            cards: Seq::new(
                cards.len(),
                |i: int|
                    if i < SLOTS {
                        Card { pos: layout.slot_position(i), ..cards[i] }
                    } else {
                        cards[i]
                    },
            ),
            slot_positions: Seq::new(SLOTS as nat, |i: int| layout.slot_position(i)),
            dragging_card: None,
            dragging_unit: None,
            layout: layout,
        }
    }

    /// A press with nothing in the grip takes the first card under the
    /// pointer, if there is one.
    pub open spec fn grabbed(self, p: Vec2D, b: ButtonState) -> DeckView {
        if b.pressed && self.dragging_card is None && self.dragging_unit is None && card_under(
            self.cards,
            p,
        ) is Some {
            let c = self.cards[card_under(self.cards, p)->0];
            DeckView {
                dragging_card: Some(
                    Drag {
                        id: c.id,
                        offset: Vec2D { x: saturate(p.x - c.pos.x), y: saturate(p.y - c.pos.y) },
                        origin: c.pos,
                    },
                ),
                ..self
            }
        } else {
            self
        }
    }

    /// A card in the grip follows the pointer, kept on the screen. Once its
    /// top is more than `LIFT_MARGIN` above the deck, it stands for its
    /// unit. A grip on a card that is not in the hand does nothing.
    pub open spec fn card_dragged(self, p: Vec2D) -> DeckView {
        if self.dragging_card is Some && card_index(self.cards, self.dragging_card->0.id) is Some {
            let drag = self.dragging_card->0;
            let i = card_index(self.cards, drag.id)->0;
            let pos = Vec2D {
                x: clamp(
                    saturate(p.x - drag.offset.x) as int,
                    0,
                    saturate(SCALE - self.layout.card_width) as int,
                ) as i64,
                y: clamp(
                    saturate(p.y - drag.offset.y) as int,
                    0,
                    saturate(SCALE - self.layout.card_height) as int,
                ) as i64,
            };
            let moved = DeckView { cards: with_card_at(self.cards, i, pos), ..self };
            if pos.y < self.layout.deck_y - LIFT_MARGIN {
                DeckView {
                    dragging_card: None,
                    dragging_unit: Some(
                        Drag { id: drag.id, offset: Vec2D { x: 0, y: 0 }, origin: drag.origin },
                    ),
                    ..moved
                }
            } else {
                moved
            }
        } else {
            self
        }
    }

    /// A unit in the grip that is brought back into the deck with the button
    /// down becomes a card again, held by its centre.
    pub open spec fn unit_returned(self, p: Vec2D, b: ButtonState) -> DeckView {
        if self.dragging_unit is Some && card_index(self.cards, self.dragging_unit->0.id) is Some
            && b.down && self.layout.in_deck(p) {
            let drag = self.dragging_unit->0;
            DeckView {
                dragging_unit: None,
                dragging_card: Some(
                    Drag {
                        id: drag.id,
                        offset: Vec2D {
                            x: half(self.layout.card_width as int) as i64,
                            y: half(self.layout.card_height as int) as i64,
                        },
                        origin: drag.origin,
                    },
                ),
                ..self
            }
        } else {
            self
        }
    }

    /// Whether letting go of `drag` at `p` deploys its card: the card is in
    /// the hand, the pointer is above the deck, and `elixir` covers the cost.
    pub open spec fn deploys(self, drag: Drag, p: Vec2D, elixir: u32) -> bool {
        &&& card_index(self.cards, drag.id) is Some
        &&& p.y < self.layout.deck_y
        &&& elixir >= self.cards[card_index(self.cards, drag.id)->0].cost
        &&& !self.layout.in_deck(p)
    }

    /// Letting go of the unit `drag` at `p`. Where that deploys, the card
    /// leaves the hand, its cost leaves `elixir`, and the unit is handed
    /// out at `p` with the card's health. Otherwise the card, if it is in
    /// the hand, goes back to where it was taken from.
    pub open spec fn unit_dropped(self, drag: Drag, p: Vec2D, elixir: u32) -> (
        DeckView,
        u32,
        Option<Unit>,
    ) {
        if self.deploys(drag, p, elixir) {
            let i = card_index(self.cards, drag.id)->0;
            let card = self.cards[i];
            (
                DeckView { cards: self.cards.remove(i), dragging_unit: None, ..self },
                (elixir - card.cost) as u32,
                Some(
                    Unit {
                        id: drag.id,
                        x: p.x,
                        y: p.y,
                        health: card.health,
                        velocity: DEPLOY_VELOCITY,
                    },
                ),
            )
        } else {
            (DeckView { dragging_unit: None, ..self.card_put_back(drag) }, elixir, None)
        }
    }

    /// The card of `drag`, if it is in the hand, back where it was taken
    /// from.
    pub open spec fn card_put_back(self, drag: Drag) -> DeckView {
        match card_index(self.cards, drag.id) {
            Some(i) => DeckView { cards: with_card_at(self.cards, i, drag.origin), ..self },
            None => self,
        }
    }

    /// What a unit in the grip does in one frame: it may return to the deck,
    /// and where the button is released it is dropped.
    pub open spec fn unit_dragged(self, p: Vec2D, b: ButtonState, elixir: u32) -> (
        DeckView,
        u32,
        Option<Unit>,
    ) {
        match self.dragging_unit {
            Some(drag) => {
                let returned = self.unit_returned(p, b);
                if b.released {
                    returned.unit_dropped(drag, p, elixir)
                } else {
                    (returned, elixir, None)
                }
            },
            None => (self, elixir, None),
        }
    }

    /// Letting go of a card puts it back where it was taken from.
    pub open spec fn card_released(self, b: ButtonState) -> DeckView {
        if b.released && self.dragging_card is Some {
            DeckView { dragging_card: None, ..self.card_put_back(self.dragging_card->0) }
        } else {
            self
        }
    }

    /// One frame: grab, drag the card, drag the unit, let go. Each step
    /// works on what the one before has left. The result is the deck, the
    /// elixir that is left, and the unit that was deployed, if one was.
    pub open spec fn stepped(self, p: Vec2D, b: ButtonState, elixir: u32) -> (
        DeckView,
        u32,
        Option<Unit>,
    ) {
        let (deck, left, deployed) = self.grabbed(p, b).card_dragged(p).unit_dragged(p, b, elixir);
        (deck.card_released(b), left, deployed)
    }
}

/// The index of the first card that lies under the point `p`.
fn find_card_under(cards: &mut Vec<Card>, p: Vec2D) -> (r: Option<usize>)
    ensures
        final(cards)@ == old(cards)@,
        match r {
            Some(i) => card_under(old(cards)@, p) == Some(i as int),
            None => card_under(old(cards)@, p) is None,
        },
{
    let ghost covering = |c: Card| c.covers(p.x as int, p.y as int, SCALE as int, SCALE as int);
    let n: usize = cards.len();
    let mut i: usize = 0;
    while i < n
        invariant
            i <= n,
            n == cards@.len(),
            cards@ == old(cards)@,
            covering == |c: Card| c.covers(p.x as int, p.y as int, SCALE as int, SCALE as int),
            forall|j: int| 0 <= j < i ==> !covering(#[trigger] cards@[j]),
        decreases n - i,
    {
        if cards[i].contains(p.x, p.y, SCALE, SCALE) {
            assert(cards@ == old(cards)@);
            proof {
                lemma_first_where_found(cards@, covering, i as int);
            }
            return Some(i);
        }
        assert(cards@ == old(cards)@);
        i += 1;
    }
    proof {
        lemma_first_where_absent(cards@, covering);
    }
    None
}

impl DeckLayout {
    /// Whether the point is in the deck's column, at the deck's height or
    /// below.
    pub fn holds(&self, p: Vec2D) -> (r: bool)
        ensures
            r == self.in_deck(p),
    {
        p.y >= self.deck_y && p.x >= self.deck_x && p.x as i128 <= self.deck_x as i128
            + self.deck_width as i128
    }

    /// The positions of the slots, or why the layout cannot hold them.
    pub fn slots(&self) -> (r: Result<Vec<Vec2D>, LayoutError>)
        ensures
            match r {
                Ok(positions) => {
                    &&& !self.too_wide()
                    &&& !self.too_tall()
                    &&& positions@ == Seq::new(SLOTS as nat, |i: int| self.slot_position(i))
                },
                Err(LayoutError::TooWide) => self.too_wide(),
                Err(LayoutError::TooTall) => !self.too_wide() && self.too_tall(),
            },
    {
        let pad_x: i128 = self.slot_padding_x as i128;
        let pad_y: i128 = self.slot_padding_y as i128;
        let deck_width: i128 = self.deck_width as i128;
        let slot_width: i128 = self.card_width as i128 + 2 * pad_x;
        let slots_width: i128 = 4 * slot_width;
        let spare: i128 = deck_width - slots_width - 2 * pad_x;
        let spacing: i128 = if spare > 0 {
            spare / 3
        } else {
            0
        };
        let row_width: i128 = slots_width + spacing * 3;
        if row_width > deck_width {
            return Err(LayoutError::TooWide);
        }
        let slot_height: i128 = self.card_height as i128 + 2 * pad_y;
        let room_height: i128 = self.deck_height as i128 - 2 * pad_y;
        if slot_height > room_height {
            return Err(LayoutError::TooTall);
        }
        let stride: i128 = slot_width + spacing;
        let first_x: i128 = self.deck_x as i128 + (deck_width - row_width) / 2 + pad_x;
        let y: i64 = narrow(self.deck_y as i128 + (room_height - slot_height) / 2 + 2 * pad_y);
        let mut positions: Vec<Vec2D> = Vec::new();
        let mut offset: i128 = 0;
        let mut i: usize = 0;
        while i < SLOTS
            invariant
                i <= SLOTS,
                positions@.len() == i,
                stride == self.slot_width() + self.spacing(),
                -0x1_0000_0000_0000_0000_0000 < stride < 0x1_0000_0000_0000_0000_0000,
                -0x1_0000_0000_0000_0000_0000 < first_x < 0x1_0000_0000_0000_0000_0000,
                first_x == self.deck_x + (self.deck_width - self.row_width()) / 2
                    + self.slot_padding_x,
                y == self.slot_position(0).y,
                offset == stride * i,
                -0x1_0000_0000_0000_0000_0000 * i <= offset <= 0x1_0000_0000_0000_0000_0000 * i,
                forall|j: int| 0 <= j < i ==> positions@[j] == self.slot_position(j),
            decreases SLOTS - i,
        {
            positions.push(Vec2D { x: narrow(first_x + offset), y });
            assert(stride * (i + 1) == stride * i + stride) by (nonlinear_arith);
            offset = offset + stride;
            i += 1;
        }
        Ok(positions)
    }
}

impl Deck {
    /// A deck of `cards` laid out by `layout`: the first `SLOTS` cards go to
    /// the slots, in order. A layout whose row of slots is wider than the
    /// deck is refused as `TooWide`; one that is not, but whose slots are
    /// taller than the deck's padding leaves room for, as `TooTall`.
    pub fn new(cards: Vec<Card>, layout: DeckLayout) -> (r: Result<Deck, LayoutError>)
        ensures
            match r {
                Ok(deck) => {
                    &&& !layout.too_wide()
                    &&& !layout.too_tall()
                    &&& deck@ == DeckView::laid_out(cards@, layout)
                },
                Err(LayoutError::TooWide) => layout.too_wide(),
                Err(LayoutError::TooTall) => !layout.too_wide() && layout.too_tall(),
            },
    {
        let slot_positions: Vec<Vec2D> = match layout.slots() {
            Ok(positions) => positions,
            Err(e) => {
                return Err(e);
            },
        };
        let mut cards = cards;
        let ghost dealt = cards@;
        let n: usize = if cards.len() < SLOTS {
            cards.len()
        } else {
            SLOTS
        };
        let mut i: usize = 0;
        while i < n
            invariant
                i <= n,
                n <= SLOTS,
                n <= cards@.len(),
                cards@.len() == dealt.len(),
                slot_positions@ == Seq::new(SLOTS as nat, |i: int| layout.slot_position(i)),
                forall|j: int|
                    0 <= j < i ==> cards@[j] == (Card {
                        pos: layout.slot_position(j),
                        ..dealt[j]
                    }),
                forall|j: int| i <= j < cards@.len() ==> cards@[j] == dealt[j],
            decreases n - i,
        {
            cards[i].pos = slot_positions[i];
            i += 1;
        }
        let deck = Deck { cards, slot_positions, dragging_card: None, dragging_unit: None, layout };
        assert(deck@.cards =~= DeckView::laid_out(dealt, layout).cards);
        Ok(deck)
    }

    fn grab(&mut self, p: Vec2D, b: ButtonState)
        ensures
            final(self)@ == old(self)@.grabbed(p, b),
    {
        if b.pressed && self.dragging_card.is_none() && self.dragging_unit.is_none() {
            match find_card_under(&mut self.cards, p) {
                Some(i) => {
                    let id: u32 = self.cards[i].id;
                    let pos: Vec2D = self.cards[i].pos;
                    self.dragging_card = Some(
                        Drag {
                            id,
                            offset: Vec2D { x: difference(p.x, pos.x), y: difference(p.y, pos.y) },
                            origin: pos,
                        },
                    );
                },
                None => {},
            }
        }
    }

    fn drag_card(&mut self, p: Vec2D)
        ensures
            final(self)@ == old(self)@.card_dragged(p),
    {
        match self.dragging_card {
            Some(drag) => {
                match find_card(&self.cards, drag.id) {
                    Some(i) => {
                        let x: i64 = clamp_to(
                            difference(p.x, drag.offset.x),
                            0,
                            difference(SCALE, self.layout.card_width),
                        );
                        let y: i64 = clamp_to(
                            difference(p.y, drag.offset.y),
                            0,
                            difference(SCALE, self.layout.card_height),
                        );
                        self.cards[i].pos = Vec2D { x, y };
                        if (y as i128) < self.layout.deck_y as i128 - LIFT_MARGIN as i128 {
                            self.dragging_card = None;
                            self.dragging_unit = Some(
                                Drag {
                                    id: drag.id,
                                    offset: Vec2D { x: 0, y: 0 },
                                    origin: drag.origin,
                                },
                            );
                        }
                    },
                    None => {},
                }
            },
            None => {},
        }
    }

    fn put_back(&mut self, drag: Drag)
        ensures
            final(self)@ == old(self)@.card_put_back(drag),
    {
        match find_card(&self.cards, drag.id) {
            Some(i) => {
                self.cards[i].pos = drag.origin;
            },
            None => {},
        }
    }

    fn drag_unit(&mut self, p: Vec2D, b: ButtonState, elixir: &mut u32) -> (deployed: Option<Unit>)
        ensures
            (final(self)@, *final(elixir), deployed) == old(self)@.unit_dragged(p, b, *old(elixir)),
    {
        let drag: Drag = match self.dragging_unit {
            Some(drag) => drag,
            None => {
                return None;
            },
        };
        let in_deck: bool = self.layout.holds(p);
        let held: Option<usize> = find_card(&self.cards, drag.id);
        if held.is_some() && b.down && in_deck {
            self.dragging_unit = None;
            self.dragging_card = Some(
                Drag {
                    id: drag.id,
                    offset: Vec2D {
                        x: halved(self.layout.card_width),
                        y: halved(self.layout.card_height),
                    },
                    origin: drag.origin,
                },
            );
        }
        if !b.released {
            return None;
        }
        let mut deployed: Option<Unit> = None;
        match held {
            Some(i) => {
                let cost: u32 = self.cards[i].cost;
                let health: u32 = self.cards[i].health;
                if p.y < self.layout.deck_y && *elixir >= cost && !in_deck {
                    *elixir = *elixir - cost;
                    self.cards.remove(i);
                    deployed = Some(
                        Unit { id: drag.id, x: p.x, y: p.y, health, velocity: DEPLOY_VELOCITY },
                    );
                } else {
                    self.cards[i].pos = drag.origin;
                }
            },
            None => {},
        }
        self.dragging_unit = None;
        deployed
    }

    fn release_card(&mut self, b: ButtonState)
        ensures
            final(self)@ == old(self)@.card_released(b),
    {
        if b.released {
            match self.dragging_card {
                Some(drag) => {
                    self.put_back(drag);
                    self.dragging_card = None;
                },
                None => {},
            }
        }
    }

    /// One frame of the pointer at `mouse_vec`, a fraction of the screen,
    /// with its button as `button` says. A deployment is paid from `elixir`
    /// and hands out the unit; in every other frame `elixir` stays and
    /// nothing is handed out.
    pub fn update(&mut self, mouse_vec: Vec2D, button: ButtonState, elixir: &mut u32) -> (deployed:
        Option<Unit>)
        ensures
            (final(self)@, *final(elixir), deployed) == old(self)@.stepped(
                mouse_vec,
                button,
                *old(elixir),
            ),
    {
        self.grab(mouse_vec, button);
        self.drag_card(mouse_vec);
        let deployed: Option<Unit> = self.drag_unit(mouse_vec, button, elixir);
        self.release_card(button);
        deployed
    }
}

} // verus!
