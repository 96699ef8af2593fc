//! Placement of card copies on fixed 3 x 3 duplex grid pages.
//!
//! Lengths are held exactly, as whole tenths of a millimetre.
use vstd::prelude::*;
use crate::deck::{PickedCard, PickedDeck};

verus! {

/// Width of a card, in tenths of a millimetre.
pub const CARD_WIDTH: u64 = 630;

/// Height of a card, in tenths of a millimetre.
pub const CARD_HEIGHT: u64 = 880;

/// Width of an A4 page, in tenths of a millimetre.
pub const PAGE_WIDTH_A4: u64 = 2100;

/// Height of an A4 page, in tenths of a millimetre.
pub const PAGE_HEIGHT_A4: u64 = 2970;

/// Cards in one row, and rows on one page.
pub const GRID_SIDE: usize = 3;

/// Cards on one page.
pub const CARDS_PER_PAGE: usize = 9;

/// Left margin that centres three cards on the page.
pub const WIDTH_OFFSET: u64 = (PAGE_WIDTH_A4 - 3 * CARD_WIDTH) / 2;

/// Bottom margin that centres three rows of cards on the page.
pub const HEIGHT_OFFSET: u64 = (PAGE_HEIGHT_A4 - 3 * CARD_HEIGHT) / 2;

/// A length on the page, in whole tenths of a millimetre.
#[derive(Clone, Copy, Debug, PartialEq, Eq, Structural)]
pub struct Length {
    pub tenths_mm: u64,
}

/// Page on which the copy with this index is printed.
pub open spec fn page_of(index: int) -> int {
    index / 9
}

/// Column of the copy, counted from the left of the front page.
pub open spec fn column_of(index: int) -> int {
    (index % 9) % 3
}

/// Row of the copy, counted from the bottom of the page.
pub open spec fn row_of(index: int) -> int {
    2 - (index % 9) / 3
}

/// Horizontal offset of the front image.
pub open spec fn front_x_of(index: int) -> int {
    WIDTH_OFFSET + column_of(index) * CARD_WIDTH
}

/// Vertical offset, shared by the front and the back image.
pub open spec fn y_of(index: int) -> int {
    HEIGHT_OFFSET + row_of(index) * CARD_HEIGHT
}

/// Horizontal offset of the back image: the column mirrored left to right.
pub open spec fn back_x_of(index: int) -> int {
    WIDTH_OFFSET + (2 - column_of(index)) * CARD_WIDTH
}

/// Given a card index, return its position in the document:
/// (page number from 0, x offset, y offset, x offset on the other side).
pub fn grid_translator(index: usize) -> (r: (usize, Length, Length, Length))
    ensures
        r.0 == page_of(index as int),
        r.1.tenths_mm == front_x_of(index as int),
        r.2.tenths_mm == y_of(index as int),
        r.3.tenths_mm == back_x_of(index as int),
{
    let page = index / CARDS_PER_PAGE;
    let pos_index = index % CARDS_PER_PAGE;
    let grid_x = (pos_index % GRID_SIDE) as u64;
    let grid_x_flip = 2 - grid_x;
    // Offsets are measured from the bottom left, so the top row is row 2.
    let grid_y = 2 - (pos_index / GRID_SIDE) as u64;
    let x = WIDTH_OFFSET + CARD_WIDTH * grid_x;
    let y = HEIGHT_OFFSET + CARD_HEIGHT * grid_y;
    let x_flip = WIDTH_OFFSET + CARD_WIDTH * grid_x_flip;
    (page, Length { tenths_mm: x }, Length { tenths_mm: y }, Length { tenths_mm: x_flip })
}

/// Nine copies further on, a copy lands on the next page, in the same place.
pub proof fn lemma_next_page_same_place(index: int)
    requires
        0 <= index,
    ensures
        page_of(index + 9) == page_of(index) + 1,
        front_x_of(index + 9) == front_x_of(index),
        y_of(index + 9) == y_of(index),
        back_x_of(index + 9) == back_x_of(index),
{
    assert((index + 9) / 9 == index / 9 + 1) by (nonlinear_arith);
    assert((index + 9) % 9 == index % 9) by (nonlinear_arith);
}

/// Every copy lies wholly on its page, and its back lies behind its front
/// once the sheet is flipped about the vertical axis.
pub proof fn lemma_placement_on_page_and_mirrored(index: int)
    requires
        0 <= index,
    ensures
        0 <= front_x_of(index),
        front_x_of(index) + CARD_WIDTH <= PAGE_WIDTH_A4,
        0 <= back_x_of(index),
        back_x_of(index) + CARD_WIDTH <= PAGE_WIDTH_A4,
        0 <= y_of(index),
        y_of(index) + CARD_HEIGHT <= PAGE_HEIGHT_A4,
        back_x_of(index) == PAGE_WIDTH_A4 - CARD_WIDTH - front_x_of(index),
{
}

/// A resolution in dots per inch, held exactly as a fraction.
#[derive(Clone, Copy, Debug, PartialEq, Eq, Structural)]
pub struct Dpi {
    pub numerator: u128,
    pub denominator: u128,
}

/// Dots per inch of an image `px` pixels across a side of `tenths` tenths of
/// a millimetre: `px / (tenths / 254)`.
pub open spec fn dpi_of_side(px: int, tenths: int) -> (int, int) {
    (px * 254, tenths)
}

/// Given an image's width and height in pixels, for a card of 63 mm by 88 mm,
/// the resolution of the side that limits it: the smaller of the two.
pub fn calculate_dpi(width: usize, height: usize) -> (r: Dpi)
    ensures
        (r.numerator as int, r.denominator as int) == if width * CARD_HEIGHT < height * CARD_WIDTH {
            dpi_of_side(width as int, CARD_WIDTH as int)
        } else {
            dpi_of_side(height as int, CARD_HEIGHT as int)
        },
        r.numerator * CARD_WIDTH <= width * 254 * r.denominator,
        r.numerator * CARD_HEIGHT <= height * 254 * r.denominator,
{
    let w = width as u128;
    let h = height as u128;
    assert(w * 880 <= 0xffff_ffff_ffff_ffff * 880) by (nonlinear_arith)
        requires w <= 0xffff_ffff_ffff_ffff;
    assert(h * 630 <= 0xffff_ffff_ffff_ffff * 630) by (nonlinear_arith)
        requires h <= 0xffff_ffff_ffff_ffff;
    if w * (CARD_HEIGHT as u128) < h * (CARD_WIDTH as u128) {
        let r = Dpi { numerator: w * 254, denominator: CARD_WIDTH as u128 };
        assert(r.numerator * CARD_HEIGHT <= height * 254 * r.denominator) by (nonlinear_arith)
            requires r.numerator == width * 254, r.denominator == 630, width * 880 < height * 630;
        r
    } else {
        let r = Dpi { numerator: h * 254, denominator: CARD_HEIGHT as u128 };
        assert(r.numerator * CARD_WIDTH <= width * 254 * r.denominator) by (nonlinear_arith)
            requires r.numerator == height * 254, r.denominator == 880, width * 880 >= height * 630;
        r
    }
}

/// One printed copy of a card: which card, and where it goes.
#[derive(Clone, Copy, Debug, PartialEq, Eq, Structural)]
pub struct CardSlot {
    /// Whether the card is in the sideboard rather than the mainboard.
    pub sideboard: bool,
    /// Position of the card in its section.
    pub card: usize,
    /// Page pair the copy is printed on, from 0.
    pub page: usize,
    /// Horizontal offset of the front image.
    pub front_x: Length,
    /// Vertical offset of both images.
    pub y: Length,
    /// Horizontal offset of the back image.
    pub back_x: Length,
}

/// The card of each copy of a section, in order: the position of each card,
/// repeated as many times as its quantity.
pub open spec fn copies(cards: Seq<PickedCard>) -> Seq<int>
    decreases cards.len(),
{
    if cards.len() == 0 {
        seq![]
    } else {
        copies(cards.drop_last()) + Seq::new(cards.last().quantity as nat, |j: int| cards.len() - 1)
    }
}

/// Whether `s` is the slot of copy number `i` of the deck, a copy of card
/// `card` of the given section.
pub open spec fn is_slot(s: CardSlot, i: int, sideboard: bool, card: int) -> bool {
    &&& s.sideboard == sideboard
    &&& s.card == card
    &&& s.page == page_of(i)
    &&& s.front_x.tenths_mm == front_x_of(i)
    &&& s.y.tenths_mm == y_of(i)
    &&& s.back_x.tenths_mm == back_x_of(i)
}

/// Append a slot for each copy of each card of one section.
fn push_section_slots(out: &mut Vec<CardSlot>, cards: &Vec<PickedCard>, sideboard: bool)
    ensures
        final(out)@.len() == old(out)@.len() + copies(cards@).len(),
        forall|i: int| 0 <= i < old(out)@.len() ==> #[trigger] final(out)@[i] == old(out)@[i],
        forall|j: int|
            0 <= j < copies(cards@).len() ==> is_slot(
                #[trigger] final(out)@[old(out)@.len() + j],
                old(out)@.len() + j,
                sideboard,
                copies(cards@)[j],
            ),
{
    let ghost base = out@.len();
    let ghost start = out@;
    let n = cards.len();
    let mut k: usize = 0;
    while k < n
        invariant
            n == cards@.len(),
            k <= n,
            base == start.len(),
            out@.len() == base + copies(cards@.subrange(0, k as int)).len(),
            forall|i: int| 0 <= i < base ==> #[trigger] out@[i] == start[i],
            forall|j: int|
                0 <= j < copies(cards@.subrange(0, k as int)).len() ==> is_slot(
                    #[trigger] out@[base + j],
                    base + j,
                    sideboard,
                    copies(cards@.subrange(0, k as int))[j],
                ),
        decreases n - k,
    {
        let ghost before = copies(cards@.subrange(0, k as int));
        let q = cards[k].quantity;
        assert(cards@.subrange(0, k + 1).drop_last() =~= cards@.subrange(0, k as int));
        assert(cards@.subrange(0, k + 1).last() == cards@[k as int]);
        let ghost after = copies(cards@.subrange(0, k + 1));
        assert(after == before + Seq::new(q as nat, |j: int| k as int));
        let mut c: u32 = 0;
        while c < q
            invariant
                n == cards@.len(),
                k < n,
                q == cards@[k as int].quantity,
                base == start.len(),
                after == before + Seq::new(q as nat, |j: int| k as int),
                c <= q,
                out@.len() == base + before.len() + c,
                forall|i: int| 0 <= i < base ==> #[trigger] out@[i] == start[i],
                forall|j: int|
                    0 <= j < before.len() + c ==> is_slot(
                        #[trigger] out@[base + j],
                        base + j,
                        sideboard,
                        after[j],
                    ),
            decreases q - c,
        {
            let index = out.len();
            let (page, front_x, y, back_x) = grid_translator(index);
            out.push(CardSlot { sideboard, card: k, page, front_x, y, back_x });
            c = c + 1;
        }
        k = k + 1;
    }
    assert(cards@.subrange(0, n as int) =~= cards@);
}

/// Where each printed copy of a deck goes: every card as many times as its
/// quantity, the mainboard first, each copy in the next free place.
pub fn print_slots(deck: &PickedDeck) -> (r: Vec<CardSlot>)
    ensures
        r@.len() == copies(deck.mainboard@).len() + copies(deck.sideboard@).len(),
        forall|i: int|
            0 <= i < copies(deck.mainboard@).len() ==> is_slot(
                #[trigger] r@[i],
                i,
                false,
                copies(deck.mainboard@)[i],
            ),
        forall|j: int|
            0 <= j < copies(deck.sideboard@).len() ==> is_slot(
                #[trigger] r@[copies(deck.mainboard@).len() + j],
                copies(deck.mainboard@).len() + j,
                true,
                copies(deck.sideboard@)[j],
            ),
{
    let mut out: Vec<CardSlot> = Vec::new();
    push_section_slots(&mut out, &deck.mainboard, false);
    push_section_slots(&mut out, &deck.sideboard, true);
    proof {
        let m = copies(deck.mainboard@).len();
        assert forall|i: int| 0 <= i < m implies is_slot(#[trigger] out@[i], i, false, copies(deck.mainboard@)[i]) by {
            assert(out@[i] == out@[0 + i]);
        }
    }
    out
}

} // verus!
