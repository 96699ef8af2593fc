//! Cards and decks at each stage of processing, and the printing picker.
use vstd::prelude::*;
use crate::text::{lower_of, lowercase};

verus! {

/// A card read from a decklist, before any catalog information is known.
#[derive(Debug)]
pub struct DehydratedCard {
    pub quantity: u32,
    pub set_code: Option<String>,
    pub collector_number: Option<String>,
    pub name: String,
    pub double_sided: Option<bool>,
}

/// A card filled in with catalog information: the requested printing, and
/// every printing known for it.
#[derive(Debug)]
pub struct HydratedCard {
    pub quantity: u32,
    pub name: String,
    pub set_code: String,
    pub collector_number: String,
    pub double_sided: bool,
    pub variants: Vec<CardVariant>,
}

/// A printing of a card: its set code and its collector number.
#[derive(Debug)]
pub struct CardVariant {
    pub set: String,
    pub collector_number: String,
}

/// A card with one definite printing chosen.
#[derive(Debug)]
pub struct PickedCard {
    pub quantity: u32,
    pub set_code: String,
    pub collector_number: String,
    pub name: String,
    pub double_sided: bool,
}

/// A deck as read from a decklist, in its two sections.
#[derive(Debug)]
pub struct DehydratedDeck {
    pub mainboard: Vec<DehydratedCard>,
    pub sideboard: Vec<DehydratedCard>,
}

/// A deck whose cards carry catalog information.
#[derive(Debug)]
pub struct HydratedDeck {
    pub mainboard: Vec<HydratedCard>,
    pub sideboard: Vec<HydratedCard>,
}

/// A deck whose cards each have one printing chosen.
#[derive(Debug)]
pub struct PickedDeck {
    pub mainboard: Vec<PickedCard>,
    pub sideboard: Vec<PickedCard>,
}

/// Whether the requested printing of `c` is one of its known printings,
/// set code and collector number each compared without regard to case.
pub open spec fn requested_is_known(c: HydratedCard) -> bool {
    exists|i: int|
        0 <= i < c.variants@.len() && lower_of((#[trigger] c.variants@[i]).set@) == lower_of(
            c.set_code@,
        ) && lower_of(c.variants@[i].collector_number@) == lower_of(c.collector_number@)
}

/// Whether `p` is the pick for `c`: the requested printing when it is known,
/// and the first known printing otherwise.
pub open spec fn is_pick_of(p: PickedCard, c: HydratedCard) -> bool {
    &&& p.quantity == c.quantity
    &&& p.name@ == c.name@
    &&& p.double_sided == c.double_sided
    &&& if requested_is_known(c) {
        p.set_code@ == c.set_code@ && p.collector_number@ == c.collector_number@
    } else {
        p.set_code@ == c.variants@[0].set@ && p.collector_number@ == c.variants@[0].collector_number@
    }
}

/// Whether every card in the list knows at least one printing.
pub open spec fn all_have_variants(cards: Seq<HydratedCard>) -> bool {
    forall|i: int| 0 <= i < cards.len() ==> (#[trigger] cards[i]).variants@.len() > 0
}

/// Whether `picked` holds the picks for `cards`, one for one, in order.
pub open spec fn picks_of(picked: Seq<PickedCard>, cards: Seq<HydratedCard>) -> bool {
    picked.len() == cards.len() && forall|i: int| 0 <= i < cards.len() ==> is_pick_of(#[trigger] picked[i], cards[i])
}

/// Whether the pair (`set`, `number`) is one of `variants`, compared exactly.
/// With every text lower-cased first, this is the case-blind comparison.
pub fn pair_is_listed(set: &String, number: &String, variants: &Vec<CardVariant>) -> (r: bool)
    ensures
        r == exists|i: int|
            0 <= i < variants@.len() && (#[trigger] variants@[i]).set@ == set@
                && variants@[i].collector_number@ == number@,
{
    let n = variants.len();
    let mut i: usize = 0;
    while i < n
        invariant
            n == variants@.len(),
            i <= n,
            forall|j: int|
                0 <= j < i ==> !((#[trigger] variants@[j]).set@ == set@
                    && variants@[j].collector_number@ == number@),
        decreases n - i,
    {
        if *set == variants[i].set && *number == variants[i].collector_number {
            assert(variants@[i as int].set@ == set@);
            return true;
        }
        i = i + 1;
    }
    false
}

/// Whether the requested printing of `card` is one of its known printings,
/// without regard to case.
pub fn requested_printing_is_known(card: &HydratedCard) -> (r: bool)
    ensures
        r == requested_is_known(*card),
{
    let set = lowercase(card.set_code.as_str());
    let number = lowercase(card.collector_number.as_str());
    let mut folded: Vec<CardVariant> = Vec::new();
    let n = card.variants.len();
    let mut i: usize = 0;
    while i < n
        invariant
            n == card.variants@.len(),
            i <= n,
            folded@.len() == i,
            forall|j: int|
                0 <= j < i ==> (#[trigger] folded@[j]).set@ == lower_of(card.variants@[j].set@)
                    && folded@[j].collector_number@ == lower_of(card.variants@[j].collector_number@),
        decreases n - i,
    {
        let v = &card.variants[i];
        folded.push(
            CardVariant {
                set: lowercase(v.set.as_str()),
                collector_number: lowercase(v.collector_number.as_str()),
            },
        );
        i = i + 1;
    }
    let r = pair_is_listed(&set, &number, &folded);
    assert(r == requested_is_known(*card)) by {
        if r {
            let j = choose|j: int|
                0 <= j < folded@.len() && (#[trigger] folded@[j]).set@ == set@
                    && folded@[j].collector_number@ == number@;
            assert(lower_of(card.variants@[j].set@) == lower_of(card.set_code@));
        }
        if requested_is_known(*card) {
            let j = choose|j: int|
                0 <= j < card.variants@.len() && lower_of((#[trigger] card.variants@[j]).set@)
                    == lower_of(card.set_code@) && lower_of(card.variants@[j].collector_number@)
                    == lower_of(card.collector_number@);
            assert(folded@[j].set@ == set@);
        }
    }
    r
}

/// Choose the printing to render for one card. A requested printing that is
/// not among the known ones (a stale or placeholder reference) gives way to
/// the first known printing.
pub fn pick_card(card: HydratedCard) -> (r: PickedCard)
    requires
        card.variants@.len() > 0,
    ensures
        is_pick_of(r, card),
{
    // Input data may be generated by other tools or edited by hand, so the
    // requested printing is checked against the known ones.
    if requested_printing_is_known(&card) {
        PickedCard {
            quantity: card.quantity,
            set_code: card.set_code,
            collector_number: card.collector_number,
            name: card.name,
            double_sided: card.double_sided,
        }
    } else {
        let set = card.variants[0].set.clone();
        let num = card.variants[0].collector_number.clone();
        PickedCard {
            quantity: card.quantity,
            set_code: set,
            collector_number: num,
            name: card.name,
            double_sided: card.double_sided,
        }
    }
}

/// Pick a printing for each card of a list, keeping the order.
pub fn pick_cards(cards: Vec<HydratedCard>) -> (r: Vec<PickedCard>)
    requires
        all_have_variants(cards@),
    ensures
        picks_of(r@, cards@),
{
    let ghost all = cards@;
    let mut rest = cards;
    let mut out: Vec<PickedCard> = Vec::new();
    let n = rest.len();
    let mut k: usize = 0;
    while k < n
        invariant
            n == all.len(),
            k <= n,
            all_have_variants(all),
            rest@ == all.subrange(k as int, n as int),
            picks_of(out@, all.subrange(0, k as int)),
        decreases n - k,
    {
        let card = rest.remove(0);
        assert(card == all[k as int]);
        out.push(pick_card(card));
        assert(rest@ =~= all.subrange(k + 1, n as int));
        assert forall|j: int| 0 <= j < k + 1 implies is_pick_of(#[trigger] out@[j], all.subrange(0, k + 1)[j]) by {
            if j < k {
                assert(all.subrange(0, k as int)[j] == all.subrange(0, k + 1)[j]);
            }
        }
        k = k + 1;
    }
    assert(all.subrange(0, n as int) =~= all);
    out
}

impl HydratedDeck {
    /// Whether every card of the deck knows at least one printing.
    pub open spec fn well_formed(&self) -> bool {
        all_have_variants(self.mainboard@) && all_have_variants(self.sideboard@)
    }

    /// Choose the printing to render for every card, section by section.
    pub fn as_picked(self) -> (r: PickedDeck)
        requires
            self.well_formed(),
        ensures
            picks_of(r.mainboard@, self.mainboard@),
            picks_of(r.sideboard@, self.sideboard@),
    {
        PickedDeck { mainboard: pick_cards(self.mainboard), sideboard: pick_cards(self.sideboard) }
    }
}

} // verus!
