//! Resolution of a card name to its known printings, in front of a
//! persistent store: what is stored on a miss, and how a stored entry
//! fills in a decklist card.
use vstd::prelude::*;
use crate::catalog::{
    has_face_images, is_renderable, ScryfallSearchResultEntry, ScryfallSearchResultEntryImageUris,
};
use crate::deck::{CardVariant, DehydratedCard, HydratedCard};
use crate::text::{lower_of, lowercase};

verus! {

/// One stored printing of a card.
#[derive(Clone, Debug, PartialEq, Eq)]
pub struct Printing {
    pub set: String,
    pub collector_number: String,
    pub lang: String,
    pub img_url: Option<ScryfallSearchResultEntryImageUris>,
}

/// What the store holds for one card name: its canonical name, whether it
/// is double-sided, and its printings in catalog order.
#[derive(Clone, Debug, PartialEq, Eq)]
pub struct CardInfo {
    pub name: String,
    pub double_sided: bool,
    pub variants: Vec<Printing>,
}

/// Why a card could not be resolved.
#[derive(Clone, Copy, Debug, PartialEq, Eq, Structural)]
pub enum ResolveError {
    /// The catalog gave no printing that can be rendered.
    NoPrintings,
    /// A printing of the aggregated set lacks a `<set>-<number>` collector number.
    MalformedAggregate,
    /// A stored entry lists no printing.
    EmptyVariantSet,
}

/// The set code of the aggregated set, whose collector numbers encode
/// `<real set>-<real collector number>`.
pub open spec fn is_aggregate(set: Seq<char>) -> bool {
    set == seq!['p', 'l', 'i', 's', 't']
}

/// Whether position `p` holds the one and only `-` of `s`.
pub open spec fn is_sole_dash(s: Seq<char>, p: int) -> bool {
    0 <= p < s.len() && s[p] == '-' && forall|q: int| 0 <= q < s.len() && q != p ==> s[q] != '-'
}

/// Whether `s` holds exactly one `-`.
pub open spec fn has_sole_dash(s: Seq<char>) -> bool {
    exists|p: int| is_sole_dash(s, p)
}

/// The position of the one `-` of `s`.
pub open spec fn sole_dash(s: Seq<char>) -> int
    recommends
        has_sole_dash(s),
{
    choose|p: int| is_sole_dash(s, p)
}

/// An entry is well formed unless it belongs to the aggregated set without
/// exactly one `-` in its collector number.
pub open spec fn well_formed_entry(e: ScryfallSearchResultEntry) -> bool {
    is_aggregate(e.set@) ==> has_sole_dash(e.collector_number@)
}

/// Whether `p` is the stored form of entry `e`: for the aggregated set, the
/// real set and number taken from the collector number; otherwise as is.
pub open spec fn normalizes_to(e: ScryfallSearchResultEntry, p: Printing) -> bool {
    &&& p.lang@ == e.lang@
    &&& p.img_url == e.image_uris
    &&& if is_aggregate(e.set@) {
        let cn = e.collector_number@;
        p.set@ == cn.subrange(0, sole_dash(cn)) && p.collector_number@ == cn.subrange(
            sole_dash(cn) + 1,
            cn.len() as int,
        )
    } else {
        p.set@ == e.set@ && p.collector_number@ == e.collector_number@
    }
}

/// The entries that can be rendered, in catalog order.
pub open spec fn renderable(entries: Seq<ScryfallSearchResultEntry>) -> Seq<ScryfallSearchResultEntry>
    decreases entries.len(),
{
    if entries.len() == 0 {
        seq![]
    } else {
        let earlier = renderable(entries.drop_last());
        if is_renderable(entries.last()) {
            earlier.push(entries.last())
        } else {
            earlier
        }
    }
}

/// Whether every entry of the list is well formed.
pub open spec fn all_well_formed(entries: Seq<ScryfallSearchResultEntry>) -> bool {
    forall|i: int| 0 <= i < entries.len() ==> well_formed_entry(#[trigger] entries[i])
}

/// Whether `info` is what resolution stores for the catalog's answer `entries`:
/// the renderable entries, normalized and in order, named after the first
/// of them and double-sided when a face of the first has its own image.
pub open spec fn info_from(entries: Seq<ScryfallSearchResultEntry>, info: CardInfo) -> bool {
    let acc = renderable(entries);
    &&& acc.len() > 0
    &&& info.name@ == acc[0].name@
    &&& info.double_sided == has_face_images(acc[0])
    &&& info.variants@.len() == acc.len()
    &&& forall|i: int| 0 <= i < acc.len() ==> normalizes_to(acc[i], #[trigger] info.variants@[i])
}

/// The error, if any, of resolving the catalog's answer `entries`.
pub open spec fn info_error(entries: Seq<ScryfallSearchResultEntry>) -> Option<ResolveError> {
    let acc = renderable(entries);
    if acc.len() == 0 {
        Some(ResolveError::NoPrintings)
    } else if !all_well_formed(acc) {
        Some(ResolveError::MalformedAggregate)
    } else {
        None
    }
}

/// Whether `s` is the aggregated set's code.
pub fn is_aggregate_set(s: &str) -> (r: bool)
    ensures
        r == is_aggregate(s@),
{
    if s.unicode_len() != 5 {
        return false;
    }
    let r = s.get_char(0) == 'p' && s.get_char(1) == 'l' && s.get_char(2) == 'i' && s.get_char(3)
        == 's' && s.get_char(4) == 't';
    assert(r ==> s@ =~= seq!['p', 'l', 'i', 's', 't']);
    r
}

/// The position of the one `-` of `s`, or `None` when it holds none or several.
pub fn sole_dash_position(s: &str) -> (r: Option<usize>)
    ensures
        r matches Some(p) ==> is_sole_dash(s@, p as int),
        r is None ==> !has_sole_dash(s@),
{
    let n = s.unicode_len();
    let mut first: Option<usize> = None;
    let mut i: usize = 0;
    while i < n
        invariant
            n == s@.len(),
            i <= n,
            first is None ==> forall|q: int| 0 <= q < i ==> s@[q] != '-',
            first matches Some(p) ==> p < i && s@[p as int] == '-' && forall|q: int|
                0 <= q < i && q != p ==> s@[q] != '-',
        decreases n - i,
    {
        if s.get_char(i) == '-' {
            match first {
                None => {
                    first = Some(i);
                },
                Some(p) => {
                    assert forall|x: int| !is_sole_dash(s@, x) by {
                        if is_sole_dash(s@, x) {
                            if x == p {
                                assert(s@[i as int] == '-');
                            } else {
                                assert(s@[p as int] == '-');
                            }
                        }
                    }
                    return None;
                },
            }
        }
        i = i + 1;
    }
    first
}

/// The stored form of one catalog entry. A printing of the aggregated set
/// takes its real set and number from its collector number, which must
/// hold exactly one `-`.
pub fn printing_from_entry(e: ScryfallSearchResultEntry) -> (r: Result<Printing, ResolveError>)
    ensures
        well_formed_entry(e) ==> (r matches Ok(p) && normalizes_to(e, p)),
        !well_formed_entry(e) ==> r == Err::<Printing, ResolveError>(ResolveError::MalformedAggregate),
{
    if is_aggregate_set(e.set.as_str()) {
        let cn = e.collector_number.as_str();
        match sole_dash_position(cn) {
            None => Err(ResolveError::MalformedAggregate),
            Some(p) => {
                let n = cn.unicode_len();
                let set = cn.substring_char(0, p).to_owned();
                let num = cn.substring_char(p + 1, n).to_owned();
                proof {
                    assert(is_sole_dash(cn@, sole_dash(cn@)));
                    if sole_dash(cn@) != p as int {
                        assert(cn@[p as int] == '-');
                    }
                }
                Ok(Printing { set, collector_number: num, lang: e.lang, img_url: e.image_uris })
            },
        }
    } else {
        Ok(
            Printing {
                set: e.set,
                collector_number: e.collector_number,
                lang: e.lang,
                img_url: e.image_uris,
            },
        )
    }
}

/// Renderable entries of two lists in a row are those of each, in a row.
proof fn lemma_renderable_concat(a: Seq<ScryfallSearchResultEntry>, b: Seq<ScryfallSearchResultEntry>)
    ensures
        renderable(a + b) == renderable(a) + renderable(b),
    decreases b.len(),
{
    if b.len() == 0 {
        assert(a + b =~= a);
        assert(renderable(a) + renderable(b) =~= renderable(a));
    } else {
        lemma_renderable_concat(a, b.drop_last());
        assert((a + b).drop_last() =~= a + b.drop_last());
        assert((a + b).last() == b.last());
        assert((renderable(a) + renderable(b.drop_last())).push(b.last()) =~= renderable(a)
            + renderable(b.drop_last()).push(b.last()));
    }
}

/// Build what the store holds for a card from the catalog's answer: the
/// renderable entries, normalized and in catalog order, named after the
/// first of them, double-sided when a face of the first has its own image.
pub fn card_info_from_entries(entries: Vec<ScryfallSearchResultEntry>) -> (r: Result<CardInfo, ResolveError>)
    ensures
        info_error(entries@) matches Some(e) ==> r == Err::<CardInfo, ResolveError>(e),
        info_error(entries@) is None ==> (r matches Ok(info) && info_from(entries@, info)),
{
    let ghost all = entries@;
    let mut rest = entries;
    let n = rest.len();
    let mut k: usize = 0;
    let mut name: Option<String> = None;
    let mut double_sided = false;
    let mut variants: Vec<Printing> = Vec::new();
    while k < n
        invariant
            all == entries@,
            n == all.len(),
            k <= n,
            rest@ == all.subrange(k as int, n as int),
            all_well_formed(renderable(all.subrange(0, k as int))),
            variants@.len() == renderable(all.subrange(0, k as int)).len(),
            forall|i: int|
                0 <= i < variants@.len() ==> normalizes_to(
                    renderable(all.subrange(0, k as int))[i],
                    #[trigger] variants@[i],
                ),
            (renderable(all.subrange(0, k as int)).len() == 0) == (name is None),
            name matches Some(nm) ==> nm@ == renderable(all.subrange(0, k as int))[0].name@
                && double_sided == has_face_images(renderable(all.subrange(0, k as int))[0]),
        decreases n - k,
    {
        let ghost acc = renderable(all.subrange(0, k as int));
        let e = rest.remove(0);
        assert(all.subrange(0, k + 1).drop_last() =~= all.subrange(0, k as int));
        assert(e == all[k as int]);
        assert(rest@ =~= all.subrange(k + 1, n as int));
        if e.valid() {
            assert(renderable(all.subrange(0, k + 1)) == acc.push(e));
            if name.is_none() {
                name = Some(e.name.clone());
                double_sided = e.has_face_images();
            }
            let ghost e0 = e;
            match printing_from_entry(e) {
                Err(x) => {
                    proof {
                        lemma_renderable_concat(all.subrange(0, k + 1), all.subrange(k + 1, n as int));
                        assert(all.subrange(0, k + 1) + all.subrange(k + 1, n as int) =~= all);
                        let whole = renderable(all);
                        assert(renderable(all.subrange(0, k + 1)).len() == acc.len() + 1);
                        assert(whole[acc.len() as int] == e0);
                        assert(!well_formed_entry(e0));
                        assert(!well_formed_entry(whole[acc.len() as int]));
                        assert(!all_well_formed(whole));
                        assert(x == ResolveError::MalformedAggregate);
                        assert(whole.len() > acc.len());
                        assert(info_error(all) == Some(ResolveError::MalformedAggregate));
                    }
                    return Err(x);
                },
                Ok(p) => {
                    variants.push(p);
                },
            }
        } else {
            assert(renderable(all.subrange(0, k + 1)) == acc);
        }
        k = k + 1;
    }
    assert(all.subrange(0, n as int) =~= all);
    match name {
        None => Err(ResolveError::NoPrintings),
        Some(nm) => Ok(CardInfo { name: nm, double_sided, variants }),
    }
}

/// The stored printing a decklist card falls back on for a field it leaves out.
pub open spec fn requested_or_first(requested: Option<String>, first: String) -> Seq<char> {
    match requested {
        Some(s) => s@,
        None => first@,
    }
}

/// Whether `h` is decklist card `card` filled in from stored entry `info`:
/// the requested printing, or the first stored one for what the card leaves
/// out, lower-cased, with every stored printing lower-cased.
pub open spec fn hydrated_from(h: HydratedCard, card: DehydratedCard, info: CardInfo) -> bool {
    &&& h.quantity == card.quantity
    &&& h.name@ == info.name@
    &&& h.double_sided == info.double_sided
    &&& h.set_code@ == lower_of(requested_or_first(card.set_code, info.variants@[0].set))
    &&& h.collector_number@ == lower_of(
        requested_or_first(card.collector_number, info.variants@[0].collector_number),
    )
    &&& h.variants@.len() == info.variants@.len()
    &&& forall|i: int|
        0 <= i < h.variants@.len() ==> (#[trigger] h.variants@[i]).set@ == lower_of(
            info.variants@[i].set@,
        ) && h.variants@[i].collector_number@ == lower_of(info.variants@[i].collector_number@)
}

/// Fill in a decklist card from the stored entry for its name.
pub fn hydrate(card: DehydratedCard, info: &CardInfo) -> (h: HydratedCard)
    requires
        info.variants@.len() > 0,
    ensures
        hydrated_from(h, card, *info),
{
    let first = &info.variants[0];
    let set_code = match &card.set_code {
        Some(s) => lowercase(s.as_str()),
        None => lowercase(first.set.as_str()),
    };
    let collector_number = match &card.collector_number {
        Some(c) => lowercase(c.as_str()),
        None => lowercase(first.collector_number.as_str()),
    };
    let mut variants: Vec<CardVariant> = Vec::new();
    let n = info.variants.len();
    let mut i: usize = 0;
    while i < n
        invariant
            n == info.variants@.len(),
            i <= n,
            variants@.len() == i,
            forall|j: int|
                0 <= j < i ==> (#[trigger] variants@[j]).set@ == lower_of(info.variants@[j].set@)
                    && variants@[j].collector_number@ == lower_of(
                    info.variants@[j].collector_number@,
                ),
        decreases n - i,
    {
        let v = &info.variants[i];
        variants.push(
            CardVariant {
                set: lowercase(v.set.as_str()),
                collector_number: lowercase(v.collector_number.as_str()),
            },
        );
        i = i + 1;
    }
    HydratedCard {
        quantity: card.quantity,
        name: info.name.clone(),
        set_code,
        collector_number,
        double_sided: info.double_sided,
        variants,
    }
}

/// The outcome of looking a card up in the store.
#[derive(Debug)]
pub enum Lookup {
    /// The store held the card's entry: the card filled in from it.
    Hit(HydratedCard),
    /// The store held nothing: the card, to be resolved through the catalog.
    Miss(DehydratedCard),
}

/// First step of resolving a card: what the store held for its name. A hit
/// is answered from the stored entry alone, without the catalog.
pub fn resolve_cached(card: DehydratedCard, cached: Option<CardInfo>) -> (r: Result<Lookup, ResolveError>)
    ensures
        cached is None ==> (r matches Ok(Lookup::Miss(c)) && c == card),
        cached matches Some(info) ==> if info.variants@.len() == 0 {
            r == Err::<Lookup, ResolveError>(ResolveError::EmptyVariantSet)
        } else {
            r matches Ok(Lookup::Hit(h)) && hydrated_from(h, card, info)
        },
{
    match cached {
        None => Ok(Lookup::Miss(card)),
        Some(info) => {
            if info.variants.len() == 0 {
                Err(ResolveError::EmptyVariantSet)
            } else {
                Ok(Lookup::Hit(hydrate(card, &info)))
            }
        },
    }
}

/// Second step, on a miss: from the catalog's answer, the entry to store
/// under the card's name and the card filled in from it.
pub fn resolve_fetched(card: DehydratedCard, entries: Vec<ScryfallSearchResultEntry>) -> (r: Result<(CardInfo, HydratedCard), ResolveError>)
    ensures
        info_error(entries@) matches Some(e) ==> r == Err::<(CardInfo, HydratedCard), ResolveError>(e),
        info_error(entries@) is None ==> (r matches Ok((info, h)) && info_from(entries@, info)
            && hydrated_from(h, card, info)),
{
    match card_info_from_entries(entries) {
        Err(e) => Err(e),
        Ok(info) => {
            let h = hydrate(card, &info);
            Ok((info, h))
        },
    }
}

/// Whether two filled-in cards agree in every field.
pub open spec fn same_hydrated(a: HydratedCard, b: HydratedCard) -> bool {
    &&& a.quantity == b.quantity
    &&& a.name@ == b.name@
    &&& a.set_code@ == b.set_code@
    &&& a.collector_number@ == b.collector_number@
    &&& a.double_sided == b.double_sided
    &&& a.variants@.len() == b.variants@.len()
    &&& forall|i: int|
        0 <= i < a.variants@.len() ==> (#[trigger] a.variants@[i]).set@ == b.variants@[i].set@
            && a.variants@[i].collector_number@ == b.variants@[i].collector_number@
}

/// Resolving a name twice gives the same card: the entry that a miss stores
/// lists printings, so a later lookup of it is a hit, answered without the
/// catalog, and the card it fills in agrees in every field with the one the
/// miss returned.
pub proof fn lemma_hit_repeats_miss(
    entries: Seq<ScryfallSearchResultEntry>,
    card: DehydratedCard,
    info: CardInfo,
    first: HydratedCard,
    again: HydratedCard,
)
    requires
        info_from(entries, info),
        hydrated_from(first, card, info),
        hydrated_from(again, card, info),
    ensures
        info.variants@.len() > 0,
        same_hydrated(first, again),
{
}

/// Whether `s` holds no `-`.
pub open spec fn dash_free(s: Seq<char>) -> bool {
    forall|q: int| 0 <= q < s.len() ==> s[q] != '-'
}

/// A printing of the aggregated set whose collector number reads
/// `<real set>-<number>` is stored under the real set and number, and the
/// card filled in from it lists them lower-cased.
pub proof fn lemma_aggregate_rewritten(
    entries: Seq<ScryfallSearchResultEntry>,
    info: CardInfo,
    card: DehydratedCard,
    h: HydratedCard,
    i: int,
    real_set: Seq<char>,
    number: Seq<char>,
)
    requires
        info_from(entries, info),
        hydrated_from(h, card, info),
        0 <= i < renderable(entries).len(),
        is_aggregate(renderable(entries)[i].set@),
        renderable(entries)[i].collector_number@ == real_set + seq!['-'] + number,
        dash_free(real_set),
        dash_free(number),
    ensures
        info.variants@[i].set@ == real_set,
        info.variants@[i].collector_number@ == number,
        h.variants@[i].set@ == lower_of(real_set),
        h.variants@[i].collector_number@ == lower_of(number),
{
    let cn = real_set + seq!['-'] + number;
    let p = real_set.len() as int;
    assert(cn[p] == '-');
    assert forall|q: int| 0 <= q < cn.len() && q != p implies cn[q] != '-' by {
        if q < p {
            assert(cn[q] == real_set[q]);
        } else {
            assert(cn[q] == number[q - p - 1]);
        }
    }
    assert(is_sole_dash(cn, p));
    let d = sole_dash(cn);
    assert(is_sole_dash(cn, d));
    if d != p {
        assert(cn[p] == '-');
    }
    assert(normalizes_to(renderable(entries)[i], info.variants@[i]));
    assert(cn.subrange(0, p) =~= real_set);
    assert(cn.subrange(p + 1, cn.len() as int) =~= number);
}

} // verus!
