use proxy_deck::catalog::{
    faces_match, name_answers_query, CatalogSearch, ScryfallSearchResult, ScryfallSearchResultEntry,
    ScryfallSearchResultEntryCardFace, ScryfallSearchResultEntryImageUris,
};
use proxy_deck::deck::{CardVariant, DehydratedCard, HydratedCard, HydratedDeck};
use proxy_deck::resolve::{
    card_info_from_entries, hydrate, resolve_cached, resolve_fetched, CardInfo, Lookup, Printing,
    ResolveError,
};
use proxy_deck::text::{split_faces, trim};

fn uris(tag: &str) -> ScryfallSearchResultEntryImageUris {
    ScryfallSearchResultEntryImageUris {
        small: format!("{}-small", tag),
        normal: format!("{}-normal", tag),
        large: format!("{}-large", tag),
        png: format!("{}-png", tag),
    }
}

fn face(name: &str, image: bool) -> ScryfallSearchResultEntryCardFace {
    ScryfallSearchResultEntryCardFace {
        name: name.to_string(),
        image_uris: if image { Some(uris(name)) } else { None },
    }
}

fn entry(name: &str, set: &str, number: &str) -> ScryfallSearchResultEntry {
    ScryfallSearchResultEntry {
        name: name.to_string(),
        lang: "en".to_string(),
        set: set.to_string(),
        collector_number: number.to_string(),
        image_uris: Some(uris(number)),
        card_faces: None,
    }
}

fn faced(name: &str, set: &str, number: &str, faces: Vec<ScryfallSearchResultEntryCardFace>) -> ScryfallSearchResultEntry {
    ScryfallSearchResultEntry { image_uris: None, card_faces: Some(faces), ..entry(name, set, number) }
}

fn request(name: &str, set: Option<&str>, number: Option<&str>) -> DehydratedCard {
    DehydratedCard {
        quantity: 2,
        set_code: set.map(|s| s.to_string()),
        collector_number: number.map(|s| s.to_string()),
        name: name.to_string(),
        double_sided: None,
    }
}

#[test]
fn validity_needs_an_image() {
    assert!(entry("A", "m19", "1").valid());
    let mut bare = entry("A", "m19", "1");
    bare.image_uris = None;
    assert!(!bare.valid());
    assert!(faced("A // B", "mh3", "246", vec![face("A", true), face("B", true)]).valid());
    assert!(!faced("A // B", "mh3", "246", vec![face("A", true), face("B", false)]).valid());
    assert!(!faced("A // B", "mh3", "246", vec![]).valid());
}

#[test]
fn aggregate_printing_is_rewritten() {
    let info = card_info_from_entries(vec![
        entry("Stitcher's Supplier", "plist", "M19-121"),
        entry("Stitcher's Supplier", "m19", "121"),
    ])
    .unwrap();
    assert_eq!(info.variants.len(), 2);
    assert_eq!(info.variants[0].set, "M19");
    assert_eq!(info.variants[0].collector_number, "121");
    assert_eq!(info.variants[0].lang, "en");
    assert_eq!(info.variants[0].img_url, Some(uris("M19-121")));
    assert_eq!(info.variants[1].set, "m19");
    assert_eq!(info.variants[1].collector_number, "121");
}

#[test]
fn malformed_aggregate_fails() {
    assert_eq!(
        card_info_from_entries(vec![entry("X", "plist", "M19121")]),
        Err(ResolveError::MalformedAggregate)
    );
    assert_eq!(
        card_info_from_entries(vec![entry("X", "m19", "1"), entry("X", "plist", "A-B-C")]),
        Err(ResolveError::MalformedAggregate)
    );
    // An aggregate printing without an image is dropped before it is read.
    let mut hidden = entry("X", "plist", "bad");
    hidden.image_uris = None;
    let info = card_info_from_entries(vec![hidden, entry("X", "m19", "1")]).unwrap();
    assert_eq!(info.variants.len(), 1);
}

#[test]
fn no_renderable_printing_fails() {
    assert_eq!(card_info_from_entries(vec![]), Err(ResolveError::NoPrintings));
    let mut bare = entry("A", "m19", "1");
    bare.image_uris = None;
    assert_eq!(card_info_from_entries(vec![bare]), Err(ResolveError::NoPrintings));
}

#[test]
fn double_faced_cards_are_double_sided() {
    let info = card_info_from_entries(vec![faced(
        "Pinnacle Monk // Mystic Peak",
        "mh3",
        "246",
        vec![face("Pinnacle Monk", true), face("Mystic Peak", true)],
    )])
    .unwrap();
    assert!(info.double_sided);
    assert_eq!(info.name, "Pinnacle Monk // Mystic Peak");
}

#[test]
fn adventure_cards_are_not_double_sided() {
    let mut adventure = entry("Brazen Borrower // Petty Theft", "eld", "39");
    adventure.card_faces = Some(vec![face("Brazen Borrower", false), face("Petty Theft", false)]);
    let info = card_info_from_entries(vec![adventure]).unwrap();
    assert!(!info.double_sided);
    assert_eq!(info.name, "Brazen Borrower // Petty Theft");
    assert_eq!(info.variants[0].set, "eld");
}

#[test]
fn name_and_flag_come_from_first_renderable_entry() {
    let mut bare = faced("Hidden", "xxx", "0", vec![face("Hidden", true), face("Other", false)]);
    bare.image_uris = None;
    let info = card_info_from_entries(vec![bare, entry("Shown", "m19", "5")]).unwrap();
    assert_eq!(info.name, "Shown");
    assert!(!info.double_sided);
}

fn stored() -> CardInfo {
    CardInfo {
        name: "Tavern Ruffian // Tavern Smasher".to_string(),
        double_sided: true,
        variants: vec![
            Printing { set: "MID".to_string(), collector_number: "163".to_string(), lang: "en".to_string(), img_url: None },
            Printing { set: "PMID".to_string(), collector_number: "163S".to_string(), lang: "en".to_string(), img_url: None },
        ],
    }
}

#[test]
fn hydration_defaults_and_lowercases() {
    let h = hydrate(request("Tavern Ruffian", None, None), &stored());
    assert_eq!(h.quantity, 2);
    assert_eq!(h.name, "Tavern Ruffian // Tavern Smasher");
    assert_eq!(h.set_code, "mid");
    assert_eq!(h.collector_number, "163");
    assert!(h.double_sided);
    let pairs: Vec<(&str, &str)> = h.variants.iter().map(|v| (v.set.as_str(), v.collector_number.as_str())).collect();
    assert_eq!(pairs, vec![("mid", "163"), ("pmid", "163s")]);

    let h = hydrate(request("Tavern Ruffian", Some("PMID"), Some("163S")), &stored());
    assert_eq!(h.set_code, "pmid");
    assert_eq!(h.collector_number, "163s");
}

#[test]
fn cache_hit_answers_without_the_catalog() {
    match resolve_cached(request("Tavern Ruffian", None, None), Some(stored())).unwrap() {
        Lookup::Hit(h) => assert_eq!(h.set_code, "mid"),
        Lookup::Miss(_) => panic!("expected a hit"),
    }
    match resolve_cached(request("Tavern Ruffian", None, None), None).unwrap() {
        Lookup::Miss(c) => assert_eq!(c.name, "Tavern Ruffian"),
        Lookup::Hit(_) => panic!("expected a miss"),
    }
    let empty = CardInfo { name: "E".to_string(), double_sided: false, variants: vec![] };
    assert_eq!(
        resolve_cached(request("E", None, None), Some(empty)).err(),
        Some(ResolveError::EmptyVariantSet)
    );
}

fn same(a: &HydratedCard, b: &HydratedCard) -> bool {
    a.quantity == b.quantity
        && a.name == b.name
        && a.set_code == b.set_code
        && a.collector_number == b.collector_number
        && a.double_sided == b.double_sided
        && a.variants.len() == b.variants.len()
        && a.variants.iter().zip(b.variants.iter()).all(|(x, y)| x.set == y.set && x.collector_number == y.collector_number)
}

#[test]
fn resolving_twice_gives_the_same_card() {
    let entries = vec![entry("Llanowar Elves", "M19", "314"), entry("Llanowar Elves", "plist", "DOM-168")];
    let (info, first) = resolve_fetched(request("Llanowar Elves", None, None), entries).unwrap();
    let kept = info.clone();
    let again = match resolve_cached(request("Llanowar Elves", None, None), Some(info)).unwrap() {
        Lookup::Hit(h) => h,
        Lookup::Miss(_) => panic!("expected a hit"),
    };
    assert!(same(&first, &again));
    assert_eq!(first.set_code, "m19");
    assert_eq!(kept.variants[1].set, "DOM");
    assert_eq!(again.variants[1].set, "dom");
}

#[test]
fn fetch_errors_are_passed_on() {
    assert_eq!(
        resolve_fetched(request("X", None, None), vec![]).err(),
        Some(ResolveError::NoPrintings)
    );
}

fn hydrated(set: &str, number: &str, variants: &[(&str, &str)]) -> HydratedCard {
    HydratedCard {
        quantity: 3,
        name: "Card".to_string(),
        set_code: set.to_string(),
        collector_number: number.to_string(),
        double_sided: false,
        variants: variants
            .iter()
            .map(|(s, n)| CardVariant { set: s.to_string(), collector_number: n.to_string() })
            .collect(),
    }
}

#[test]
fn picker_keeps_known_printing_and_falls_back() {
    let deck = HydratedDeck {
        mainboard: vec![
            hydrated("eld", "287", &[("m19", "1"), ("eld", "287")]),
            hydrated("eld", "999", &[("m19", "1"), ("eld", "287")]),
            hydrated("m19", "287", &[("m19", "1"), ("eld", "287")]),
        ],
        sideboard: vec![hydrated("xxx", "1", &[("akh", "194")])],
    };
    let picked = deck.as_picked();
    let pairs: Vec<(&str, &str)> =
        picked.mainboard.iter().map(|c| (c.set_code.as_str(), c.collector_number.as_str())).collect();
    assert_eq!(pairs, vec![("eld", "287"), ("m19", "1"), ("m19", "1")]);
    assert_eq!(picked.sideboard[0].set_code, "akh");
    assert_eq!(picked.sideboard[0].collector_number, "194");
    assert_eq!(picked.sideboard[0].quantity, 3);
    assert_eq!(picked.sideboard[0].name, "Card");
}

#[test]
fn picker_ignores_case() {
    let deck = HydratedDeck {
        mainboard: vec![hydrated("MH3", "246", &[("abc", "1"), ("mh3", "246")])],
        sideboard: vec![hydrated("eld", "39A", &[("ELD", "39a")]), hydrated("ELD", "40", &[("eld", "39")])],
    };
    let picked = deck.as_picked();
    assert_eq!(picked.mainboard[0].set_code, "MH3");
    assert_eq!(picked.mainboard[0].collector_number, "246");
    assert_eq!(picked.sideboard[0].set_code, "eld");
    assert_eq!(picked.sideboard[0].collector_number, "39A");
    assert_eq!(picked.sideboard[1].set_code, "eld");
    assert_eq!(picked.sideboard[1].collector_number, "39");
}

#[test]
fn face_names_split_at_separators() {
    assert_eq!(split_faces("Expansion // Explosion"), vec!["Expansion ", " Explosion"]);
    assert_eq!(split_faces("Plateau"), vec!["Plateau"]);
    assert_eq!(split_faces("a//b//c"), vec!["a", "b", "c"]);
    assert_eq!(split_faces("a/b"), vec!["a/b"]);
    assert_eq!(split_faces(""), vec![""]);
}

#[test]
fn names_match_by_face_ignoring_case_and_padding() {
    assert!(name_answers_query("Expansion // Explosion", "expansion"));
    assert!(name_answers_query("Expansion // Explosion", " EXPLOSION "));
    assert!(name_answers_query("  Llanowar Elves\t", "llanowar elves"));
    assert!(!name_answers_query("Llanowar Elves", "llanowar"));
    assert!(name_answers_query("Expansion // Explosion", "expansion // explosion"));
    assert!(name_answers_query("Expansion // Explosion", " Expansion // Explosion "));
    assert!(!name_answers_query("Expansion // Explosion", "expansion // other"));
    assert!(faces_match(&vec!["a".to_string(), "b".to_string()], &"b".to_string()));
    assert!(!faces_match(&vec![], &"b".to_string()));
}

#[test]
fn search_gathers_matching_entries_over_pages() {
    let mut search = CatalogSearch::new("Llanowar Elves".to_string());
    assert_eq!(search.next_page(), Some(1));
    search.absorb(ScryfallSearchResult {
        object: "list".to_string(),
        total_cards: 3,
        has_more: true,
        data: vec![entry("Llanowar Elves", "m19", "314"), entry("Llanowar Elvish Mystic", "x", "1")],
    });
    assert_eq!(search.next_page(), Some(2));
    search.absorb(ScryfallSearchResult {
        object: "list".to_string(),
        total_cards: 3,
        has_more: false,
        data: vec![entry("llanowar elves", "dom", "168")],
    });
    assert_eq!(search.next_page(), None);
    let sets: Vec<&str> = search.results.iter().map(|e| e.set.as_str()).collect();
    assert_eq!(sets, vec!["m19", "dom"]);
}

#[test]
fn trim_removes_unicode_white_space_at_both_ends() {
    assert_eq!(trim("  a b \u{3000}"), "a b");
    assert_eq!(trim("\u{85}x\u{2029}"), "x");
    assert_eq!(trim("\t\n "), "");
    assert_eq!(trim(""), "");
    assert_eq!(trim("a"), "a");
}
