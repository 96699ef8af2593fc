//! The decklist grammar. Each non-blank line reads
//! `[SB:<spaces>]<quantity> [<SET>:<collector number>] <name>`; the `SB:`
//! prefix puts the card in the sideboard.
use vstd::prelude::*;
use crate::deck::{DehydratedCard, DehydratedDeck};
use crate::text::{is_blank, is_space, is_white_space};

verus! {

/// The kinds of character that the grammar reads in runs.
#[derive(Clone, Copy, Debug, PartialEq, Eq, Structural)]
pub enum CharClass {
    /// Unicode white space.
    Space,
    /// ASCII decimal digits.
    Digit,
    /// ASCII capital letters and digits.
    SetCode,
    /// Unicode word characters and `-`.
    Collector,
}

/// Whether `c` is an ASCII decimal digit.
pub open spec fn is_digit(c: char) -> bool {
    48 <= (c as u32) && (c as u32) <= 57
}

/// Whether `c` is an ASCII capital letter.
pub open spec fn is_upper(c: char) -> bool {
    65 <= (c as u32) && (c as u32) <= 90
}

/// What `regex_syntax::is_word_character` says of a character: whether it
/// is a Unicode word character (`Alphabetic`, `Join_Control`, or in the
/// `Decimal_Number`, `Mark` or `Connector_Punctuation` categories).
pub uninterp spec fn word_char(c: char) -> bool;

/// Relies on `regex_syntax::is_word_character`, the test behind `\w` in
/// regular expressions. It does not panic: the crate's default features
/// include `unicode-perl`.
#[verifier::external_body]
fn is_word_character(c: char) -> (r: bool)
    ensures
        r == word_char(c),
{
    regex_syntax::is_word_character(c)
}

/// Whether `c` belongs to class `k`.
pub open spec fn in_class(c: char, k: CharClass) -> bool {
    match k {
        CharClass::Space => is_white_space(c),
        CharClass::Digit => is_digit(c),
        CharClass::SetCode => is_upper(c) || is_digit(c),
        CharClass::Collector => word_char(c) || c == '-',
    }
}

/// Whether `c` belongs to class `k`.
pub fn char_in_class(c: char, k: CharClass) -> (r: bool)
    ensures
        r == in_class(c, k),
{
    let u = c as u32;
    match k {
        CharClass::Space => is_space(c),
        CharClass::Digit => 48 <= u && u <= 57,
        CharClass::SetCode => (65 <= u && u <= 90) || (48 <= u && u <= 57),
        CharClass::Collector => c == '-' || is_word_character(c),
    }
}

/// The length of the run of class `k` that starts at position `i` of `s`.
pub open spec fn run(s: Seq<char>, i: int, k: CharClass) -> int
    decreases s.len() - i,
{
    if 0 <= i < s.len() && in_class(s[i], k) {
        1 + run(s, i + 1, k)
    } else {
        0
    }
}

/// The value of a run of decimal digits.
pub open spec fn digits_value(d: Seq<char>) -> int
    decreases d.len(),
{
    if d.len() == 0 {
        0
    } else {
        digits_value(d.drop_last()) * 10 + ((d.last() as u32) - 48)
    }
}

/// One decklist line, read.
pub struct DeckLine {
    pub sideboard: bool,
    pub quantity: int,
    pub set: Seq<char>,
    pub collector: Seq<char>,
    pub name: Seq<char>,
}

/// Whether a line starts with `SB:`.
pub open spec fn has_sideboard_prefix(s: Seq<char>) -> bool {
    s.len() >= 3 && s[0] == 'S' && s[1] == 'B' && s[2] == ':'
}

/// Where the quantity may start: after `SB:` and the white space that follows it.
pub open spec fn body_start(s: Seq<char>) -> int {
    if has_sideboard_prefix(s) {
        3 + run(s, 3, CharClass::Space)
    } else {
        0
    }
}

/// End of the quantity.
pub open spec fn quantity_end(s: Seq<char>) -> int {
    body_start(s) + run(s, body_start(s), CharClass::Digit)
}

/// Start of the set code, after ` [`.
pub open spec fn set_start(s: Seq<char>) -> int {
    quantity_end(s) + 2
}

/// End of the set code.
pub open spec fn set_end(s: Seq<char>) -> int {
    set_start(s) + run(s, set_start(s), CharClass::SetCode)
}

/// Start of the collector number, after `:`.
pub open spec fn number_start(s: Seq<char>) -> int {
    set_end(s) + 1
}

/// End of the collector number.
pub open spec fn number_end(s: Seq<char>) -> int {
    number_start(s) + run(s, number_start(s), CharClass::Collector)
}

/// Start of the card name, after `] `.
pub open spec fn name_start(s: Seq<char>) -> int {
    number_end(s) + 2
}

/// Whether the punctuation, the runs and the name of a line are all in place.
pub open spec fn line_shape_ok(s: Seq<char>) -> bool {
    let q = quantity_end(s);
    let se = set_end(s);
    let ne = number_end(s);
    &&& q > body_start(s)
    &&& q + 1 < s.len() && s[q] == ' ' && s[q + 1] == '['
    &&& se > set_start(s) && se < s.len() && s[se] == ':'
    &&& ne > number_start(s) && ne + 1 < s.len() && s[ne] == ']' && s[ne + 1] == ' '
    &&& name_start(s) < s.len()
    &&& forall|i: int| name_start(s) <= i < s.len() ==> s[i] != '\n'
}

/// A decklist line, read; `None` for a line that does not follow the grammar
/// or whose quantity does not fit in 32 bits.
pub open spec fn parse_line(s: Seq<char>) -> Option<DeckLine> {
    if line_shape_ok(s) && digits_value(s.subrange(body_start(s), quantity_end(s))) <= u32::MAX {
        Some(
            DeckLine {
                sideboard: has_sideboard_prefix(s),
                quantity: digits_value(s.subrange(body_start(s), quantity_end(s))),
                set: s.subrange(set_start(s), set_end(s)),
                collector: s.subrange(number_start(s), number_end(s)),
                name: s.subrange(name_start(s), s.len() as int),
            },
        )
    } else {
        None
    }
}

/// Whether `c` is the card that line `l` describes.
pub open spec fn card_is_line(c: DehydratedCard, l: DeckLine) -> bool {
    &&& c.quantity == l.quantity
    &&& c.set_code matches Some(s) && s@ == l.set
    &&& c.collector_number matches Some(n) && n@ == l.collector
    &&& c.name@ == l.name
    &&& c.double_sided is None
}

/// A card read from one line, with its section.
#[derive(Debug)]
pub enum XMageCard {
    Mainboard(DehydratedCard),
    Sideboard(DehydratedCard),
}

/// Whether `x` is what line `l` reads as.
pub open spec fn entry_is_line(x: XMageCard, l: DeckLine) -> bool {
    match x {
        XMageCard::Mainboard(c) => !l.sideboard && card_is_line(c, l),
        XMageCard::Sideboard(c) => l.sideboard && card_is_line(c, l),
    }
}

/// The end of the run of class `k` that starts at position `i` of `s`.
fn scan_run(s: &str, n: usize, i: usize, k: CharClass) -> (r: usize)
    requires
        n == s@.len(),
        i <= n,
    ensures
        r == i + run(s@, i as int, k),
        i <= r <= n,
{
    let mut j = i;
    while j < n && char_in_class(s.get_char(j), k)
        invariant
            n == s@.len(),
            i <= j <= n,
            run(s@, i as int, k) == (j - i) + run(s@, j as int, k),
        decreases n - j,
    {
        j = j + 1;
    }
    j
}

/// A run of digits is worth zero or more.
proof fn lemma_digits_nonneg(d: Seq<char>)
    requires
        forall|i: int| 0 <= i < d.len() ==> is_digit(#[trigger] d[i]),
    ensures
        digits_value(d) >= 0,
    decreases d.len(),
{
    if d.len() > 0 {
        lemma_digits_nonneg(d.drop_last());
        assert(is_digit(d[d.len() - 1]));
    }
}

/// A run of digits is worth at least as much as each of its beginnings.
proof fn lemma_digits_grow(d: Seq<char>, j: int)
    requires
        0 <= j <= d.len(),
        forall|i: int| 0 <= i < d.len() ==> is_digit(#[trigger] d[i]),
    ensures
        digits_value(d.subrange(0, j)) <= digits_value(d),
    decreases d.len() - j,
{
    if j < d.len() {
        lemma_digits_grow(d, j + 1);
        let p = d.subrange(0, j + 1);
        assert(p.drop_last() =~= d.subrange(0, j));
        assert(p.last() == d[j]);
        assert(is_digit(d[j]));
        lemma_digits_nonneg(d.subrange(0, j));
    } else {
        assert(d.subrange(0, j) =~= d);
    }
}

/// Every character of a run belongs to its class.
proof fn lemma_run_chars(s: Seq<char>, i: int, k: CharClass)
    requires
        0 <= i,
    ensures
        forall|x: int| i <= x < i + run(s, i, k) ==> in_class(#[trigger] s[x], k),
    decreases s.len() - i,
{
    if 0 <= i < s.len() && in_class(s[i], k) {
        lemma_run_chars(s, i + 1, k);
    }
}

/// The value of the quantity `s[b..q]`, or `None` when it does not fit in 32 bits.
fn read_quantity(s: &str, b: usize, q: usize) -> (r: Option<u32>)
    requires
        b <= q <= s@.len(),
        forall|x: int| b <= x < q ==> is_digit(#[trigger] s@[x]),
    ensures
        r matches Some(v) ==> v == digits_value(s@.subrange(b as int, q as int)),
        r is None ==> digits_value(s@.subrange(b as int, q as int)) > u32::MAX,
{
    let ghost d = s@.subrange(b as int, q as int);
    let mut v: u64 = 0;
    let mut j = b;
    while j < q
        invariant
            b <= j <= q <= s@.len(),
            d == s@.subrange(b as int, q as int),
            forall|x: int| b <= x < q ==> is_digit(#[trigger] s@[x]),
            v == digits_value(s@.subrange(b as int, j as int)),
            v <= u32::MAX,
        decreases q - j,
    {
        let c = s.get_char(j);
        assert(is_digit(s@[j as int]));
        assert(s@.subrange(b as int, j + 1).drop_last() =~= s@.subrange(b as int, j as int));
        v = v * 10 + (c as u32 - 48) as u64;
        if v > 0xffff_ffff {
            proof {
                assert(s@.subrange(b as int, j + 1) =~= d.subrange(0, j + 1 - b));
                lemma_digits_grow(d, j + 1 - b);
            }
            return None;
        }
        j = j + 1;
    }
    Some(v as u32)
}

/// Whether position `j` onwards of `s` holds no line feed.
fn no_line_feed_from(s: &str, n: usize, j: usize) -> (r: bool)
    requires
        n == s@.len(),
        j <= n,
    ensures
        r == forall|i: int| j <= i < n ==> s@[i] != '\n',
{
    let mut i = j;
    while i < n
        invariant
            n == s@.len(),
            j <= i <= n,
            forall|x: int| j <= x < i ==> s@[x] != '\n',
        decreases n - i,
    {
        if s.get_char(i) == '\n' {
            return false;
        }
        i = i + 1;
    }
    true
}

/// Read one decklist line.
pub fn try_xmage_line(line: &str) -> (r: Result<XMageCard, ()>)
    ensures
        parse_line(line@) matches Some(l) ==> (r matches Ok(x) && entry_is_line(x, l)),
        parse_line(line@) is None ==> r is Err,
{
    let ghost s = line@;
    let n = line.unicode_len();
    let sideboard = n >= 3 && line.get_char(0) == 'S' && line.get_char(1) == 'B' && line.get_char(2)
        == ':';
    let b = if sideboard {
        scan_run(line, n, 3, CharClass::Space)
    } else {
        0
    };
    assert(sideboard == has_sideboard_prefix(s));
    assert(b == body_start(s));
    let q = scan_run(line, n, b, CharClass::Digit);
    assert(q == quantity_end(s));
    if q == b || q >= n || q + 1 >= n || line.get_char(q) != ' ' || line.get_char(q + 1) != '[' {
        return Err(());
    }
    let ss = q + 2;
    assert(ss == set_start(s));
    let se = scan_run(line, n, ss, CharClass::SetCode);
    assert(se == set_end(s));
    if se == ss || se >= n || line.get_char(se) != ':' {
        return Err(());
    }
    let ns = se + 1;
    assert(ns == number_start(s));
    let ne = scan_run(line, n, ns, CharClass::Collector);
    assert(ne == number_end(s));
    if ne == ns || ne >= n || ne + 1 >= n || line.get_char(ne) != ']' || line.get_char(ne + 1)
        != ' ' {
        return Err(());
    }
    let nm = ne + 2;
    assert(nm == name_start(s));
    if nm >= n || !no_line_feed_from(line, n, nm) {
        return Err(());
    }
    assert(line_shape_ok(s));
    proof {
        lemma_run_chars(s, b as int, CharClass::Digit);
    }
    let quantity = match read_quantity(line, b, q) {
        None => {
            return Err(());
        },
        Some(v) => v,
    };
    let card = DehydratedCard {
        quantity,
        set_code: Some(line.substring_char(ss, se).to_owned()),
        collector_number: Some(line.substring_char(ns, ne).to_owned()),
        name: line.substring_char(nm, n).to_owned(),
        double_sided: None,
    };
    if sideboard {
        Ok(XMageCard::Sideboard(card))
    } else {
        Ok(XMageCard::Mainboard(card))
    }
}

/// Whether every character of `s` is white space.
pub open spec fn is_blank_line(s: Seq<char>) -> bool {
    forall|i: int| 0 <= i < s.len() ==> is_white_space(#[trigger] s[i])
}

/// The lines of a decklist, read in order, blank ones left out; `None` when
/// a non-blank line does not follow the grammar.
pub open spec fn deck_lines(lines: Seq<Seq<char>>) -> Option<Seq<DeckLine>>
    decreases lines.len(),
{
    if lines.len() == 0 {
        Some(seq![])
    } else {
        match deck_lines(lines.drop_last()) {
            None => None,
            Some(earlier) => if is_blank_line(lines.last()) {
                Some(earlier)
            } else {
                match parse_line(lines.last()) {
                    None => None,
                    Some(l) => Some(earlier.push(l)),
                }
            },
        }
    }
}

/// The read lines that belong to one section, in order.
pub open spec fn section(ls: Seq<DeckLine>, sideboard: bool) -> Seq<DeckLine>
    decreases ls.len(),
{
    if ls.len() == 0 {
        seq![]
    } else {
        let earlier = section(ls.drop_last(), sideboard);
        if ls.last().sideboard == sideboard {
            earlier.push(ls.last())
        } else {
            earlier
        }
    }
}

/// Whether `cards` are the cards that lines `ls` describe, one for one.
pub open spec fn cards_are_lines(cards: Seq<DehydratedCard>, ls: Seq<DeckLine>) -> bool {
    cards.len() == ls.len() && forall|i: int| 0 <= i < ls.len() ==> card_is_line(#[trigger] cards[i], ls[i])
}

/// The text of each line.
pub open spec fn line_texts(lines: Seq<String>) -> Seq<Seq<char>> {
    lines.map_values(|l: String| l@)
}

/// Whether `d` is the deck that the read lines `ls` describe.
pub open spec fn deck_is_lines(d: DehydratedDeck, ls: Seq<DeckLine>) -> bool {
    cards_are_lines(d.mainboard@, section(ls, false)) && cards_are_lines(d.sideboard@, section(ls, true))
}

/// Once a line fails, the decklist fails, whatever follows.
proof fn lemma_failure_persists(a: Seq<Seq<char>>, b: Seq<Seq<char>>)
    requires
        deck_lines(a) is None,
    ensures
        deck_lines(a + b) is None,
    decreases b.len(),
{
    if b.len() == 0 {
        assert(a + b =~= a);
    } else {
        lemma_failure_persists(a, b.drop_last());
        assert((a + b).drop_last() =~= a + b.drop_last());
    }
}

/// Read a decklist in the grammar of this module, line by line. Blank lines
/// are skipped; any other line that does not follow the grammar fails the
/// whole list.
pub fn try_xmage(lines: &[String]) -> (r: Result<DehydratedDeck, ()>)
    ensures
        deck_lines(line_texts(lines@)) matches Some(ls) ==> (r matches Ok(d) && deck_is_lines(d, ls)),
        deck_lines(line_texts(lines@)) is None ==> r is Err,
{
    let ghost all = line_texts(lines@);
    let mut mainboard: Vec<DehydratedCard> = Vec::new();
    let mut sideboard: Vec<DehydratedCard> = Vec::new();
    let n = lines.len();
    let mut i: usize = 0;
    while i < n
        invariant
            all == line_texts(lines@),
            n == all.len(),
            i <= n,
            deck_lines(all.subrange(0, i as int)) is Some,
            cards_are_lines(mainboard@, section(deck_lines(all.subrange(0, i as int))->0, false)),
            cards_are_lines(sideboard@, section(deck_lines(all.subrange(0, i as int))->0, true)),
        decreases n - i,
    {
        let ghost prefix = all.subrange(0, i as int);
        let ghost next = all.subrange(0, i + 1);
        let ghost ls = deck_lines(prefix)->0;
        assert(next.drop_last() =~= prefix);
        assert(next.last() == lines@[i as int]@);
        let line = lines[i].as_str();
        if !is_blank(line) {
            match try_xmage_line(line) {
                Err(()) => {
                    proof {
                        assert(deck_lines(next) is None);
                        lemma_failure_persists(next, all.subrange(i + 1, n as int));
                        assert(next + all.subrange(i + 1, n as int) =~= all);
                    }
                    return Err(());
                },
                Ok(XMageCard::Mainboard(c)) => {
                    let ghost l = parse_line(line@)->0;
                    assert(deck_lines(next) == Some(ls.push(l)));
                    assert(ls.push(l).drop_last() =~= ls);
                    mainboard.push(c);
                    assert(section(ls.push(l), true) == section(ls, true));
                    assert forall|j: int| 0 <= j < mainboard@.len() implies card_is_line(
                        #[trigger] mainboard@[j],
                        section(ls.push(l), false)[j],
                    ) by {
                        if j < mainboard@.len() - 1 {
                            assert(section(ls.push(l), false)[j] == section(ls, false)[j]);
                        }
                    }
                },
                Ok(XMageCard::Sideboard(c)) => {
                    let ghost l = parse_line(line@)->0;
                    assert(deck_lines(next) == Some(ls.push(l)));
                    assert(ls.push(l).drop_last() =~= ls);
                    sideboard.push(c);
                    assert(section(ls.push(l), false) == section(ls, false));
                    assert forall|j: int| 0 <= j < sideboard@.len() implies card_is_line(
                        #[trigger] sideboard@[j],
                        section(ls.push(l), true)[j],
                    ) by {
                        if j < sideboard@.len() - 1 {
                            assert(section(ls.push(l), true)[j] == section(ls, true)[j]);
                        }
                    }
                },
            }
        } else {
            assert(deck_lines(next) == Some(ls));
        }
        i = i + 1;
    }
    assert(all.subrange(0, n as int) =~= all);
    Ok(DehydratedDeck { mainboard, sideboard })
}

/// Read a decklist in the format of the MTG Online client. No reader exists
/// for it yet: every list is refused, so that detection moves on.
pub fn try_mtgo(lines: &[String]) -> (r: Result<DehydratedDeck, ()>)
    ensures
        r is Err,
{
    Err(())
}

/// Read a decklist in the format of the MTG Arena client. No reader exists
/// for it yet: every list is refused, so that detection moves on.
pub fn try_mtga(lines: &[String]) -> (r: Result<DehydratedDeck, ()>)
    ensures
        r is Err,
{
    Err(())
}

/// Read a decklist, given as its lines, in the first format that accepts it.
pub fn process_lines(lines: &[String]) -> (r: Result<DehydratedDeck, &'static str>)
    ensures
        deck_lines(line_texts(lines@)) matches Some(ls) ==> (r matches Ok(d) && deck_is_lines(d, ls)),
        deck_lines(line_texts(lines@)) is None ==> (r matches Err(m) && m@
            == "Could not detect deck format"@),
{
    if let Ok(deck) = try_xmage(lines) {
        return Ok(deck);
    }
    if let Ok(deck) = try_mtgo(lines) {
        return Ok(deck);
    }
    if let Ok(deck) = try_mtga(lines) {
        return Ok(deck);
    }
    Err("Could not detect deck format")
}

/// A run read four characters further into a text with four characters in
/// front is the run of the text itself.
proof fn lemma_run_shift(p: Seq<char>, l: Seq<char>, i: int, k: CharClass)
    requires
        p.len() == 4,
        0 <= i,
    ensures
        run(p + l, i + 4, k) == run(l, i, k),
    decreases l.len() - i,
{
    let s = p + l;
    if i < l.len() {
        assert(s[i + 4] == l[i]);
        lemma_run_shift(p, l, i + 1, k);
    }
}

/// A line with `SB: ` in front reads as the same card, in the sideboard.
pub proof fn lemma_sideboard_prefix(l: Seq<char>)
    requires
        parse_line(l) matches Some(dl) && !dl.sideboard,
    ensures
        parse_line(seq!['S', 'B', ':', ' '] + l) matches Some(sl) && sl.sideboard && sl.quantity
            == parse_line(l)->0.quantity && sl.set == parse_line(l)->0.set && sl.collector
            == parse_line(l)->0.collector && sl.name == parse_line(l)->0.name,
{
    let p = seq!['S', 'B', ':', ' '];
    let s = p + l;
    assert(!has_sideboard_prefix(l));
    assert(body_start(l) == 0);
    assert(run(l, 0, CharClass::Digit) > 0);
    assert(is_digit(l[0]));
    assert(s[3] == ' ');
    assert(s[4] == l[0]);
    assert(has_sideboard_prefix(s));
    assert(run(s, 4, CharClass::Space) == 0);
    assert(run(s, 3, CharClass::Space) == 1);
    assert(body_start(s) == 4);
    lemma_run_shift(p, l, 0, CharClass::Digit);
    assert(quantity_end(s) == quantity_end(l) + 4);
    lemma_run_shift(p, l, set_start(l), CharClass::SetCode);
    assert(set_end(s) == set_end(l) + 4);
    lemma_run_shift(p, l, number_start(l), CharClass::Collector);
    assert(number_end(s) == number_end(l) + 4);
    assert(name_start(s) == name_start(l) + 4);
    assert forall|x: int| 0 <= x < l.len() implies s[x + 4] == l[x] by {}
    assert(s.subrange(body_start(s), quantity_end(s)) =~= l.subrange(body_start(l), quantity_end(l)));
    assert(s.subrange(set_start(s), set_end(s)) =~= l.subrange(set_start(l), set_end(l)));
    assert(s.subrange(number_start(s), number_end(s)) =~= l.subrange(number_start(l), number_end(l)));
    assert(s.subrange(name_start(s), s.len() as int) =~= l.subrange(name_start(l), l.len() as int));
    assert forall|i: int| name_start(s) <= i < s.len() implies s[i] != '\n' by {
        assert(s[i] == l[i - 4]);
    }
    assert(line_shape_ok(s));
}

} // verus!
